//! Request dispatch: mount lookup, the built-in `dir`/`ls` surface,
//! access control, and the `.app`/`.device` nodes.

use shvclient::client::{ClientEvent, ConnectionEvent, LoopState, Output};
use shvclient::clientnode::{find_longest_prefix, ClientNode, Route, RouteTarget};
use shvclient::shvpath::{path_starts_on_boundary, strip_path_on_boundary};
use shvclient::{
    AccessLevel, Client, DotAppNode, DotDeviceNode, ErrorCode, Message, MetaMethod, MsgKind, Value,
};

fn property_methods() -> Vec<MetaMethod> {
    vec![
        MetaMethod::plain("dir".to_string(), AccessLevel::Browse),
        MetaMethod::plain("ls".to_string(), AccessLevel::Browse),
        MetaMethod::plain("get".to_string(), AccessLevel::Read),
        MetaMethod::plain("set".to_string(), AccessLevel::Write),
        MetaMethod::plain("chng".to_string(), AccessLevel::Read),
    ]
}

fn test_client() -> Client<()> {
    let mut client = Client::new(DotAppNode::new("test".to_string()));
    client.mount_dynamic("dynamic/sync".to_string());
    client.mount_dynamic("dynamic/async".to_string());
    client.mount_fixed(
        "static".to_string(),
        property_methods(),
        vec![Route::new(
            vec!["get".to_string(), "set".to_string()],
            RouteTarget::External(7),
        )],
    );
    client
}

fn rq(path: &str, method: &str, access: Option<AccessLevel>, id: i64) -> Message {
    let mut m = Message::new_request(path.to_string(), method.to_string(), None, id);
    m.access_level = access;
    m
}

/// Feeds a request and returns the step's outputs, with the loop
/// connected; dynamic nodes are served with `property_methods` at their
/// own root and nothing below, as the embedding getter would.
fn dispatch(client: &Client<()>, request: Message) -> Vec<Output> {
    let mut st = LoopState::new();
    let outs = client.process_connection_event(&mut st, ConnectionEvent::Connected);
    assert_eq!(outs, vec![Output::BroadcastEvent(ClientEvent::Connected)]);
    let outs = client.process_connection_event(&mut st, ConnectionEvent::RpcFrameReceived(request));
    match &outs[..] {
        [Output::QueryMethods { mount, message }] => {
            let methods = if message.path.as_deref() == Some("") {
                Some(property_methods())
            } else {
                None
            };
            client.process_dynamic_result(&st, *mount, message.clone(), methods)
        },
        _ => outs,
    }
}

fn expect_error(outs: &[Output], code: ErrorCode) {
    match outs {
        [Output::SendToPeer(m)] => {
            assert_eq!(m.kind, MsgKind::Response);
            assert_eq!(m.result, None);
            assert_eq!(m.error.as_ref().expect("an error response").code, code);
        },
        other => panic!("expected an error response, got {:?}", other),
    }
}

fn expect_result(outs: &[Output]) -> Value {
    match outs {
        [Output::SendToPeer(m)] => {
            assert_eq!(m.kind, MsgKind::Response);
            assert_eq!(m.error, None);
            m.result.clone().expect("a result")
        },
        other => panic!("expected a result response, got {:?}", other),
    }
}

#[test]
fn handle_method_calls() {
    let client = test_client();

    // Nonexisting method or path.
    expect_error(&dispatch(&client, rq("dynamic/a", "dir", None, 1)), ErrorCode::MethodNotFound);
    // An unknown method is reported before the access level is looked
    // at: no access level is carried here.
    expect_error(
        &dispatch(&client, rq("dynamic/sync", "bar", None, 2)),
        ErrorCode::MethodNotFound,
    );
    expect_error(&dispatch(&client, rq("static/none", "dir", None, 3)), ErrorCode::MethodNotFound);
    expect_error(&dispatch(&client, rq("static", "foo", None, 4)), ErrorCode::MethodNotFound);

    // Access level missing on a dynamic node.
    expect_error(&dispatch(&client, rq("dynamic/async", "dir", None, 5)), ErrorCode::InvalidRequest);

    // Valid requests with sufficient permissions reach the handlers.
    match &dispatch(&client, rq("static", "get", Some(AccessLevel::Read), 6))[..] {
        [Output::RunRouteHandler { route, message, .. }] => {
            assert_eq!(*route, 0);
            assert_eq!(message.path.as_deref(), Some(""));
            assert_eq!(message.method.as_deref(), Some("get"));
        },
        other => panic!("expected RunRouteHandler, got {:?}", other),
    }
    match &dispatch(&client, rq("dynamic/sync", "set", Some(AccessLevel::Service), 7))[..] {
        [Output::RunDynamicHandler { message, .. }] => {
            assert_eq!(message.method.as_deref(), Some("set"));
        },
        other => panic!("expected RunDynamicHandler, got {:?}", other),
    }
    match &dispatch(&client, rq("dynamic/async", "get", Some(AccessLevel::Superuser), 8))[..] {
        [Output::RunDynamicHandler { .. }] => {},
        other => panic!("expected RunDynamicHandler, got {:?}", other),
    }

    // `dir` on a dynamic node lists the five fresh methods.
    match expect_result(&dispatch(&client, rq("dynamic/async", "dir", Some(AccessLevel::Browse), 9))) {
        Value::MethodList(ms) => assert_eq!(ms.len(), 5),
        other => panic!("expected a method list, got {:?}", other),
    }

    // Insufficient permissions.
    expect_error(
        &dispatch(&client, rq("static", "set", Some(AccessLevel::Browse), 10)),
        ErrorCode::PermissionDenied,
    );
    expect_error(
        &dispatch(&client, rq("dynamic/sync", "set", Some(AccessLevel::Read), 11)),
        ErrorCode::PermissionDenied,
    );
    expect_error(
        &dispatch(&client, rq("dynamic/async", "get", Some(AccessLevel::Browse), 12)),
        ErrorCode::PermissionDenied,
    );
}

#[test]
fn ls_lists_immediate_children() {
    let client = test_client();
    match expect_result(&dispatch(&client, rq("", "ls", None, 1))) {
        Value::StrList(children) => {
            assert_eq!(children, vec![".app".to_string(), "dynamic".to_string(), "static".to_string()]);
        },
        other => panic!("expected a child listing, got {:?}", other),
    }
    match expect_result(&dispatch(&client, rq("dynamic", "ls", None, 2))) {
        Value::StrList(children) => {
            assert_eq!(children, vec!["sync".to_string(), "async".to_string()]);
        },
        other => panic!("expected a child listing, got {:?}", other),
    }
}

#[test]
fn ls_with_argument_tests_child_existence() {
    let client = test_client();
    let mut request = rq("dynamic", "ls", None, 1);
    request.param = Some(Value::Str("sync".to_string()));
    assert_eq!(expect_result(&dispatch(&client, request)), Value::Bool(true));

    let mut request = rq("dynamic", "ls", None, 2);
    request.param = Some(Value::Str("nosuch".to_string()));
    assert_eq!(expect_result(&dispatch(&client, request)), Value::Bool(false));
}

#[test]
fn ls_on_a_mounted_node_lists_nested_mounts() {
    let mut client: Client<()> = Client::new(DotAppNode::new("test".to_string()));
    client.mount(
        "a".to_string(),
        ClientNode::constant(vec![MetaMethod::getter("val".to_string())], vec![(
            "val".to_string(),
            Value::Int(1),
        )]),
    );
    client.mount("a/b".to_string(), ClientNode::dynamic());
    client.mount(
        "c".to_string(),
        ClientNode::constant(vec![MetaMethod::getter("val".to_string())], vec![(
            "val".to_string(),
            Value::Int(2),
        )]),
    );
    match expect_result(&dispatch(&client, rq("a", "ls", None, 1))) {
        Value::StrList(children) => assert_eq!(children, vec!["b".to_string()]),
        other => panic!("expected a child listing, got {:?}", other),
    }
    // Without nested mounts the node itself answers: no children.
    match expect_result(&dispatch(&client, rq("c", "ls", None, 2))) {
        Value::StrList(children) => assert!(children.is_empty()),
        other => panic!("expected a child listing, got {:?}", other),
    }
}

#[test]
fn dir_on_virtual_directory_lists_the_implicit_methods() {
    let client = test_client();
    match expect_result(&dispatch(&client, rq("dynamic", "dir", None, 1))) {
        Value::MethodList(ms) => {
            let names: Vec<&str> = ms.iter().map(|m| m.name.as_str()).collect();
            assert_eq!(names, vec!["dir", "ls"]);
        },
        other => panic!("expected a method list, got {:?}", other),
    }
}

#[test]
fn dir_with_argument_selects_one_method() {
    let client = test_client();
    let mut request = rq("static", "dir", None, 1);
    request.param = Some(Value::Str("set".to_string()));
    match expect_result(&dispatch(&client, request)) {
        Value::Method(m) => {
            assert_eq!(m.name, "set");
            assert_eq!(m.access, AccessLevel::Write);
        },
        other => panic!("expected one method, got {:?}", other),
    }
    let mut request = rq("static", "dir", None, 2);
    request.param = Some(Value::Str("nosuch".to_string()));
    assert_eq!(expect_result(&dispatch(&client, request)), Value::Null);
}

#[test]
fn app_node_serves_the_mandatory_getters() {
    let client = test_client();
    assert_eq!(expect_result(&dispatch(&client, rq(".app", "shvVersionMajor", None, 1))), Value::Int(3));
    assert_eq!(expect_result(&dispatch(&client, rq(".app", "shvVersionMinor", None, 2))), Value::Int(0));
    assert_eq!(
        expect_result(&dispatch(&client, rq(".app", "name", None, 3))),
        Value::Str("test".to_string())
    );
    assert_eq!(expect_result(&dispatch(&client, rq(".app", "ping", None, 4))), Value::Null);
    expect_error(&dispatch(&client, rq(".app", "nosuch", None, 5)), ErrorCode::MethodNotFound);
}

#[test]
fn device_node_serves_its_identity() {
    let client: Client<()> = Client::new_device(
        DotAppNode::new("test".to_string()),
        DotDeviceNode::new("dev".to_string(), "1.2".to_string(), None),
    );
    assert_eq!(
        expect_result(&dispatch(&client, rq(".device", "name", None, 1))),
        Value::Str("dev".to_string())
    );
    assert_eq!(
        expect_result(&dispatch(&client, rq(".device", "version", None, 2))),
        Value::Str("1.2".to_string())
    );
    // An absent serial number is answered with null.
    assert_eq!(expect_result(&dispatch(&client, rq(".device", "serialNumber", None, 3))), Value::Null);
}

#[test]
fn device_node_serves_a_serial_number() {
    let client: Client<()> = Client::new_device(
        DotAppNode::new("test".to_string()),
        DotDeviceNode::new("dev".to_string(), "1.2".to_string(), Some("SN-1".to_string())),
    );
    assert_eq!(
        expect_result(&dispatch(&client, rq(".device", "serialNumber", None, 1))),
        Value::Str("SN-1".to_string())
    );
}

#[test]
fn mounting_twice_replaces_the_node() {
    let mut client: Client<()> = Client::new(DotAppNode::new("test".to_string()));
    client.mount(
        "node".to_string(),
        ClientNode::constant(
            vec![MetaMethod::getter("val".to_string())],
            vec![("val".to_string(), Value::Int(1))],
        ),
    );
    client.mount(
        "node".to_string(),
        ClientNode::constant(
            vec![MetaMethod::getter("val".to_string())],
            vec![("val".to_string(), Value::Int(2))],
        ),
    );
    assert_eq!(expect_result(&dispatch(&client, rq("node", "val", None, 1))), Value::Int(2));
}

#[test]
fn longest_prefix_wins_on_segment_boundaries() {
    let mounts: Vec<(String, ClientNode)> = vec![
        ("a".to_string(), ClientNode::dynamic()),
        ("a/b".to_string(), ClientNode::dynamic()),
        ("ab".to_string(), ClientNode::dynamic()),
    ];
    let (i, rest) = find_longest_prefix(&mounts, "a/b/c").unwrap();
    assert_eq!((i, rest.as_str()), (1, "c"));
    let (i, rest) = find_longest_prefix(&mounts, "a/bc").unwrap();
    assert_eq!((i, rest.as_str()), (0, "bc"));
    let (i, rest) = find_longest_prefix(&mounts, "ab").unwrap();
    assert_eq!((i, rest.as_str()), (2, ""));
    assert!(find_longest_prefix(&mounts, "abc").is_none());
}

#[test]
fn dir_on_app_node_lists_all_methods() {
    let client = test_client();
    match expect_result(&dispatch(&client, rq(".app", "dir", None, 1))) {
        Value::MethodList(ms) => {
            let names: Vec<&str> = ms.iter().map(|m| m.name.as_str()).collect();
            assert_eq!(names, vec!["dir", "ls", "shvVersionMajor", "shvVersionMinor", "name", "ping"]);
        },
        other => panic!("expected a method list, got {:?}", other),
    }
}

#[test]
fn ls_argument_on_root_tests_mounts() {
    let client = test_client();
    let mut request = rq("", "ls", None, 1);
    request.param = Some(Value::Str(".app".to_string()));
    assert_eq!(expect_result(&dispatch(&client, request)), Value::Bool(true));
}

#[test]
fn message_clone_preserves_every_field() {
    let mut m = rq("a/b", "get", Some(AccessLevel::Read), 9);
    m.param = Some(Value::StrList(vec!["x".to_string()]));
    m.caller_ids = vec![1, 2];
    assert_eq!(m.clone(), m);
}

#[test]
fn boundary_prefix_checks() {
    assert!(path_starts_on_boundary("path/to", "path/to"));
    assert!(path_starts_on_boundary("path/to", "path/to/resource"));
    assert!(!path_starts_on_boundary("path/to", "path/tore"));
    assert!(!path_starts_on_boundary("path/to/resource", "path/to"));
    // A subscription on the empty path matches nothing but the empty
    // path; a mount at the root covers everything.
    assert!(!path_starts_on_boundary("", "path"));
    assert!(shvclient::clientnode::is_mount_prefix("", "path"));
    assert_eq!(strip_path_on_boundary("path/to", "path/to/resource"), "resource");
    assert_eq!(strip_path_on_boundary("path/to", "path/to"), "");
    assert_eq!(shvclient::clientnode::mount_rest_of("", "path"), "path");
}
