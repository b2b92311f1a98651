//! The loop's command and event steps: sending, calling, correlating
//! responses, and connection bookkeeping.

use shvclient::client::{ClientCommand, ClientEvent, ConnectionEvent, LoopState, Output};
use shvclient::{AccessLevel, Client, DotAppNode, Message, MsgKind, Value};

fn new_client() -> Client<()> {
    Client::new(DotAppNode::new("test".to_string()))
}

fn request(path: &str, method: &str, param: Option<Value>, id: i64) -> Message {
    Message::new_request(path.to_string(), method.to_string(), param, id)
}

fn connect(client: &Client<()>, st: &mut LoopState) {
    let outs = client.process_connection_event(st, ConnectionEvent::Connected);
    assert_eq!(outs, vec![Output::BroadcastEvent(ClientEvent::Connected)]);
}

#[test]
fn send_message_when_connected_reaches_peer() {
    let client = new_client();
    let mut st = LoopState::new();
    connect(&client, &mut st);

    let msg = request("path/test", "test_method", Some(Value::Int(42)), 1);
    let outs = st.process_command(ClientCommand::SendMessage { message: msg });
    assert_eq!(outs.len(), 1);
    match &outs[0] {
        Output::SendToPeer(m) => {
            assert_eq!(m.kind, MsgKind::Request);
            assert_eq!(m.path.as_deref(), Some("path/test"));
            assert_eq!(m.method.as_deref(), Some("test_method"));
            assert_eq!(m.param, Some(Value::Int(42)));
        },
        other => panic!("expected SendToPeer, got {:?}", other),
    }
}

#[test]
fn send_message_when_disconnected_is_dropped() {
    let mut st = LoopState::new();
    let msg = request("path/test", "test_method", None, 1);
    let outs = st.process_command(ClientCommand::SendMessage { message: msg });
    assert!(outs.is_empty());
}

#[test]
fn call_method_and_receive_response() {
    let client = new_client();
    let mut st = LoopState::new();
    connect(&client, &mut st);

    let req = request("path/to/resource", "get", None, 7);
    let outs = st.process_command(ClientCommand::RpcCall { request: req.clone(), response_sink: 11 });
    assert_eq!(outs, vec![Output::SendToPeer(req.clone())]);

    let mut resp = req.prepare_response().unwrap();
    resp.result = Some(Value::Int(42));
    let outs = client.process_connection_event(&mut st, ConnectionEvent::RpcFrameReceived(resp.clone()));
    assert_eq!(outs.len(), 1);
    match &outs[0] {
        Output::DeliverResponse { sink, message } => {
            assert_eq!(*sink, 11);
            assert_eq!(message.kind, MsgKind::Response);
            assert_eq!(message.result, Some(Value::Int(42)));
        },
        other => panic!("expected DeliverResponse, got {:?}", other),
    }
}

#[test]
fn response_is_delivered_exactly_once() {
    let client = new_client();
    let mut st = LoopState::new();
    connect(&client, &mut st);

    let req = request("a", "get", None, 3);
    st.process_command(ClientCommand::RpcCall { request: req.clone(), response_sink: 5 });

    let mut resp = req.prepare_response().unwrap();
    resp.result = Some(Value::Int(1));
    let outs = client.process_connection_event(&mut st, ConnectionEvent::RpcFrameReceived(resp.clone()));
    assert_eq!(outs.len(), 1);
    // The registration is gone: the same response again is dropped.
    let outs = client.process_connection_event(&mut st, ConnectionEvent::RpcFrameReceived(resp));
    assert!(outs.is_empty());
}

#[test]
fn response_for_unknown_id_is_dropped() {
    let client = new_client();
    let mut st = LoopState::new();
    connect(&client, &mut st);

    let req = request("a", "get", None, 99);
    let resp = req.prepare_response().unwrap();
    let outs = client.process_connection_event(&mut st, ConnectionEvent::RpcFrameReceived(resp));
    assert!(outs.is_empty());
}

#[test]
fn duplicate_request_id_keeps_first_sink() {
    let client = new_client();
    let mut st = LoopState::new();
    connect(&client, &mut st);

    let req = request("a", "get", None, 4);
    st.process_command(ClientCommand::RpcCall { request: req.clone(), response_sink: 1 });
    st.process_command(ClientCommand::RpcCall { request: req.clone(), response_sink: 2 });

    let resp = req.prepare_response().unwrap();
    let outs = client.process_connection_event(&mut st, ConnectionEvent::RpcFrameReceived(resp));
    match &outs[0] {
        Output::DeliverResponse { sink, .. } => assert_eq!(*sink, 1),
        other => panic!("expected DeliverResponse, got {:?}", other),
    }
}

#[test]
fn connected_and_disconnected_are_broadcast() {
    let client = new_client();
    let mut st = LoopState::new();
    let outs = client.process_connection_event(&mut st, ConnectionEvent::Connected);
    assert_eq!(outs, vec![Output::BroadcastEvent(ClientEvent::Connected)]);
    let outs = client.process_connection_event(&mut st, ConnectionEvent::Disconnected);
    assert_eq!(outs, vec![Output::BroadcastEvent(ClientEvent::Disconnected)]);
}

#[test]
fn disconnect_clears_pending_calls() {
    let client = new_client();
    let mut st = LoopState::new();
    connect(&client, &mut st);

    let req = request("a", "get", None, 8);
    st.process_command(ClientCommand::RpcCall { request: req.clone(), response_sink: 1 });
    client.process_connection_event(&mut st, ConnectionEvent::Disconnected);
    connect(&client, &mut st);

    // The pending registration did not survive the disconnect.
    let resp = req.prepare_response().unwrap();
    let outs = client.process_connection_event(&mut st, ConnectionEvent::RpcFrameReceived(resp));
    assert!(outs.is_empty());
}

#[test]
fn response_preserves_caller_ids() {
    let mut req = request("a", "get", None, 12);
    req.caller_ids = vec![3, 4];
    let resp = req.prepare_response().unwrap();
    assert_eq!(resp.caller_ids, vec![3, 4]);
    assert_eq!(resp.request_id, Some(12));
    assert_eq!(resp.kind, MsgKind::Response);
    assert_eq!(resp.path, None);
    assert_eq!(resp.method, None);
}

#[test]
fn request_without_id_cannot_be_answered() {
    let mut req = request("a", "get", None, 1);
    req.request_id = None;
    assert!(req.prepare_response().is_none());
}

#[test]
fn next_subscription_id_is_monotonic() {
    let mut counter: u64 = 0;
    assert_eq!(shvclient::next_subscription_id(&mut counter), 0);
    assert_eq!(shvclient::next_subscription_id(&mut counter), 1);
    assert_eq!(shvclient::next_subscription_id(&mut counter), 2);
    assert_eq!(counter, 3);
}

#[test]
fn access_levels_are_ordered() {
    let levels = [
        AccessLevel::Browse,
        AccessLevel::Read,
        AccessLevel::Write,
        AccessLevel::Command,
        AccessLevel::Service,
        AccessLevel::Admin,
        AccessLevel::Superuser,
    ];
    for (i, a) in levels.iter().enumerate() {
        for (j, b) in levels.iter().enumerate() {
            assert_eq!(a.satisfies(*b), i >= j);
        }
    }
}
