//! Subscribing, signal fan-out, unsubscribing, and the broker requests
//! these emit.

use shvclient::client::{ClientCommand, ClientEvent, ConnectionEvent, LoopState, Output};
use shvclient::subscriptions::AddOutcome;
use shvclient::{Client, DotAppNode, Message, MsgKind, Subscriptions, Value};

fn chng_client() -> Client<()> {
    Client::new(DotAppNode::new("test".to_string()))
}

fn connect_loop(client: &Client<()>, st: &mut LoopState) {
    let outs = client.process_connection_event(st, ConnectionEvent::Connected);
    assert_eq!(outs, vec![Output::BroadcastEvent(ClientEvent::Connected)]);
}

fn subscribe_cmd(path: &str, sid: u64, sink: u64, rqid: i64) -> ClientCommand {
    ClientCommand::Subscribe {
        path: path.to_string(),
        signal: "chng".to_string(),
        subscription_id: sid,
        notification_sink: sink,
        request_id: rqid,
    }
}

fn unsubscribe_cmd(path: &str, sid: u64, rqid: i64) -> ClientCommand {
    ClientCommand::Unsubscribe {
        path: path.to_string(),
        signal: "chng".to_string(),
        subscription_id: sid,
        request_id: rqid,
    }
}

fn signal(path: &str, name: &str, param: Option<Value>) -> Message {
    Message::new_signal(path.to_string(), name.to_string(), param)
}

fn expect_broker_request(out: &Output, method: &str, path: &str) {
    match out {
        Output::SendToPeer(m) => {
            assert_eq!(m.kind, MsgKind::Request);
            assert_eq!(m.path.as_deref(), Some(".broker/app"));
            assert_eq!(m.method.as_deref(), Some(method));
            assert_eq!(
                m.param,
                Some(Value::StrMap(vec![
                    ("methods".to_string(), "".to_string()),
                    ("path".to_string(), path.to_string()),
                ]))
            );
        },
        other => panic!("expected a broker {} request, got {:?}", method, other),
    }
}

fn notified_sinks(outs: &[Output], expected_param: &Value) -> Vec<u64> {
    outs.iter()
        .map(|o| match o {
            Output::Notification { sink, message } => {
                assert!(message.kind == MsgKind::Signal);
                assert_eq!(message.param.as_ref(), Some(expected_param));
                *sink
            },
            other => panic!("expected Notification, got {:?}", other),
        })
        .collect()
}

#[test]
fn receive_subscribed_notification() {
    let client = chng_client();
    let mut st = LoopState::new();
    connect_loop(&client, &mut st);

    // Two subscriptions of the same (path, signal) and one of a prefix:
    // exactly two broker subscribe requests go out.
    let outs = st.process_command(subscribe_cmd("path/to/resource", 0, 100, 50));
    assert_eq!(outs.len(), 1);
    expect_broker_request(&outs[0], "subscribe", "path/to/resource");

    let outs = st.process_command(subscribe_cmd("path/to/resource", 1, 101, 51));
    assert!(outs.is_empty());

    let outs = st.process_command(subscribe_cmd("path/to", 2, 102, 52));
    assert_eq!(outs.len(), 1);
    expect_broker_request(&outs[0], "subscribe", "path/to");

    // Four signals arrive; all three sinks get each, in id order.
    for param in [Value::Int(42), Value::Int(43), Value::Str("bar".into()), Value::Str("baz".into())] {
        let outs = client.process_connection_event(
            &mut st,
            ConnectionEvent::RpcFrameReceived(signal("path/to/resource", "chng", Some(param.clone()))),
        );
        assert_eq!(notified_sinks(&outs, &param), vec![100, 101, 102]);
    }
}

#[test]
fn do_not_receive_unsubscribed_notification() {
    let client = chng_client();
    let mut st = LoopState::new();
    connect_loop(&client, &mut st);
    st.process_command(subscribe_cmd("path/to/resource", 0, 100, 50));

    // Path mismatches: a sibling, a non-boundary prefix.
    for (path, name) in [
        ("path/to/resource2", "chng"),
        ("path/to/res", "chng"),
        // Signal name mismatch.
        ("path/to/resource", "mntchng"),
    ] {
        let outs = client.process_connection_event(
            &mut st,
            ConnectionEvent::RpcFrameReceived(signal(path, name, Some(Value::Int(42)))),
        );
        assert!(outs.is_empty(), "unexpected delivery for {}:{}", path, name);
    }
}

#[test]
fn subscribe_and_unsubscribe() {
    let client = chng_client();
    let mut st = LoopState::new();
    connect_loop(&client, &mut st);

    st.process_command(subscribe_cmd("path/to/resource", 0, 100, 50));
    st.process_command(subscribe_cmd("path/to/resource", 1, 101, 51));

    let sig = signal("path/to/resource", "chng", Some(Value::Int(42)));
    let outs = client.process_connection_event(&mut st, ConnectionEvent::RpcFrameReceived(sig));
    assert_eq!(outs.len(), 2);

    // Dropping the first subscription emits no unsubscribe yet.
    let outs = st.process_command(unsubscribe_cmd("path/to/resource", 0, 60));
    assert!(outs.is_empty());

    let sig = signal("path/to/resource", "chng", Some(Value::Str("bar".into())));
    let outs = client.process_connection_event(&mut st, ConnectionEvent::RpcFrameReceived(sig));
    assert_eq!(notified_sinks(&outs, &Value::Str("bar".into())), vec![101]);

    // Dropping the last one emits exactly one unsubscribe.
    let outs = st.process_command(unsubscribe_cmd("path/to/resource", 1, 61));
    assert_eq!(outs.len(), 1);
    expect_broker_request(&outs[0], "unsubscribe", "path/to/resource");
}

#[test]
fn unsubscribe_leaves_other_paths_subscribed() {
    let client = chng_client();
    let mut st = LoopState::new();
    connect_loop(&client, &mut st);

    st.process_command(subscribe_cmd("path/to/resource", 0, 100, 50));
    st.process_command(subscribe_cmd("path/to", 1, 101, 51));
    st.process_command(unsubscribe_cmd("path/to/resource", 0, 60));

    let sig = signal("path/to/resource", "chng", Some(Value::Int(1)));
    let outs = client.process_connection_event(&mut st, ConnectionEvent::RpcFrameReceived(sig));
    assert_eq!(notified_sinks(&outs, &Value::Int(1)), vec![101]);
}

#[test]
fn disconnect_clears_subscriptions_and_no_resubscribe() {
    let client = chng_client();
    let mut st = LoopState::new();
    connect_loop(&client, &mut st);
    st.process_command(subscribe_cmd("path/to/resource", 0, 100, 50));

    client.process_connection_event(&mut st, ConnectionEvent::Disconnected);

    // A signal in the disconnected gap reaches nobody.
    let sig = signal("path/to/resource", "chng", Some(Value::Int(42)));
    let outs = client.process_connection_event(&mut st, ConnectionEvent::RpcFrameReceived(sig));
    assert!(outs.is_empty());

    // Reconnecting does not resubscribe on its own.
    let outs = client.process_connection_event(&mut st, ConnectionEvent::Connected);
    assert_eq!(outs, vec![Output::BroadcastEvent(ClientEvent::Connected)]);
    let sig = signal("path/to/resource", "chng", Some(Value::Int(43)));
    let outs = client.process_connection_event(&mut st, ConnectionEvent::RpcFrameReceived(sig));
    assert!(outs.is_empty());
}

#[test]
fn late_unsubscribe_after_disconnect_is_benign() {
    let client = chng_client();
    let mut st = LoopState::new();
    connect_loop(&client, &mut st);
    st.process_command(subscribe_cmd("path/to/resource", 0, 100, 50));
    client.process_connection_event(&mut st, ConnectionEvent::Disconnected);
    connect_loop(&client, &mut st);

    // The registry was cleared; the dropped receiver's unsubscribe
    // finds nothing and asks the broker for nothing.
    let outs = st.process_command(unsubscribe_cmd("path/to/resource", 0, 60));
    assert!(outs.is_empty());
}

#[test]
fn registry_counts_pairs_not_ids() {
    let mut subs = Subscriptions::new();
    assert_eq!(subs.add("a/b".to_string(), "chng".to_string(), 1, 10), AddOutcome::First);
    assert_eq!(subs.add("a/b".to_string(), "chng".to_string(), 2, 11), AddOutcome::Joined);
    assert_eq!(subs.add("a/b".to_string(), "chng".to_string(), 2, 12), AddOutcome::DuplicateId);
    assert_eq!(subs.add("a/b".to_string(), "mntchng".to_string(), 3, 13), AddOutcome::First);

    // Removing one of two leaves the pair occupied.
    assert!(!subs.remove(&"a/b".to_string(), &"chng".to_string(), 1));
    // Removing the last empties it.
    assert!(subs.remove(&"a/b".to_string(), &"chng".to_string(), 2));
    // Removing an absent subscription is benign.
    assert!(!subs.remove(&"a/b".to_string(), &"chng".to_string(), 2));
    assert!(subs.remove(&"a/b".to_string(), &"mntchng".to_string(), 3));
}

#[test]
fn registry_clear_empties_every_bucket() {
    let mut subs = Subscriptions::new();
    subs.add("a".to_string(), "chng".to_string(), 1, 10);
    subs.add("b".to_string(), "chng".to_string(), 2, 11);
    subs.clear();
    // After the clear, re-adding is a first subscription again.
    assert_eq!(subs.add("a".to_string(), "chng".to_string(), 3, 12), AddOutcome::First);
}

#[test]
fn matching_respects_segment_boundaries() {
    let mut subs = Subscriptions::new();
    subs.add("path/to".to_string(), "chng".to_string(), 1, 10);
    assert_eq!(subs.matching_sinks("path/to", "chng"), vec![(1, 10)]);
    assert_eq!(subs.matching_sinks("path/to/resource", "chng"), vec![(1, 10)]);
    assert_eq!(subs.matching_sinks("path/tore", "chng"), vec![]);
    assert_eq!(subs.matching_sinks("path/to", "mntchng"), vec![]);
}

#[test]
fn signal_dispatch_is_ordered_by_subscription_id() {
    let client = chng_client();
    let mut st = LoopState::new();
    connect_loop(&client, &mut st);

    // Commands may reach the loop out of id order; delivery is by
    // ascending subscription id all the same.
    st.process_command(subscribe_cmd("path/to/resource", 5, 100, 50));
    st.process_command(subscribe_cmd("path/to/resource", 3, 101, 51));
    st.process_command(subscribe_cmd("path/to/resource", 4, 102, 52));

    let sig = signal("path/to/resource", "chng", Some(Value::Int(7)));
    let outs = client.process_connection_event(&mut st, ConnectionEvent::RpcFrameReceived(sig));
    assert_eq!(notified_sinks(&outs, &Value::Int(7)), vec![101, 102, 100]);
}

#[test]
fn subscription_request_is_wire_shaped() {
    let req = shvclient::create_subscription_request("some/path", true, 77);
    assert_eq!(req.kind, MsgKind::Request);
    assert_eq!(req.path.as_deref(), Some(".broker/app"));
    assert_eq!(req.method.as_deref(), Some("subscribe"));
    assert_eq!(req.request_id, Some(77));
    assert_eq!(
        req.param,
        Some(Value::StrMap(vec![
            ("methods".to_string(), "".to_string()),
            ("path".to_string(), "some/path".to_string()),
        ]))
    );
    let req = shvclient::create_subscription_request("some/path", false, 78);
    assert_eq!(req.method.as_deref(), Some("unsubscribe"));
}
