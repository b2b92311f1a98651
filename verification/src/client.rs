//! The client core: the state the event loop owns and the decision it
//! takes on each command from the application and each event from the
//! transport.
//!
//! The core never performs an effect itself. Each step returns the
//! outputs the embedding runtime must perform: frames to hand to the
//! transport, deliveries into response and notification sinks,
//! broadcasts of connection events, and handler invocations.

use vstd::prelude::*;
use vstd::string::StringExecFns;
use std::sync::Arc;
use crate::appnodes::DotAppNode;
use crate::appnodes::DotDeviceNode;
use crate::clientnode::ClientNode;
use crate::clientnode::ClientNodeView;
use crate::clientnode::Mount;
use crate::clientnode::MountsView;
use crate::clientnode::Route;
use crate::clientnode::RequestAction;
use crate::clientnode::RequestActionView;
use crate::clientnode::request_action;
use crate::clientnode::dynamic_action;
use crate::message::Message;
use crate::message::MessageView;
use crate::message::MsgKind;
use crate::metamethod::MetaMethod;
use crate::subscriptions::AddOutcome;
use crate::subscriptions::SubscriptionView;
use crate::subscriptions::Subscriptions;
use crate::subscriptions::has_pair;
use crate::subscriptions::has_triple;
use crate::subscriptions::is_triple;
use crate::subscriptions::matching_of;
use crate::value::Value;
use crate::value::ValueView;

verus! {

broadcast use vstd::string::group_string_axioms;

/// What the loop broadcasts to the application about the connection.
#[derive(Clone, Copy, Debug, PartialEq, Eq, Structural)]
pub enum ClientEvent {
    Connected,
    Disconnected,
}

/// What the transport tells the loop. A connection gained is reported
/// once per successful attempt; the command sink it brings stays with
/// the runtime, the core only tracks that one is installed.
pub enum ConnectionEvent {
    Connected,
    Disconnected,
    RpcFrameReceived(Message),
}

/// A command from an application handle to the loop.
pub enum ClientCommand {
    /// Forward the message to the broker when connected.
    SendMessage { message: Message },
    /// Register the response sink under the request's id, then forward
    /// the request.
    RpcCall { request: Message, response_sink: u64 },
    /// Register a notification sink; `request_id` is spent on the
    /// broker `subscribe` request if this opens the (path, signal) pair.
    Subscribe { path: String, signal: String, subscription_id: u64, notification_sink: u64, request_id: i64 },
    /// Deregister a subscription; `request_id` is spent on the broker
    /// `unsubscribe` request if this closes the (path, signal) pair.
    Unsubscribe { path: String, signal: String, subscription_id: u64, request_id: i64 },
}

/// Mathematical image of a `ClientCommand`.
pub enum ClientCommandView {
    SendMessage { message: MessageView },
    RpcCall { request: MessageView, response_sink: u64 },
    Subscribe {
        path: Seq<char>,
        signal: Seq<char>,
        subscription_id: u64,
        notification_sink: u64,
        request_id: i64,
    },
    Unsubscribe { path: Seq<char>, signal: Seq<char>, subscription_id: u64, request_id: i64 },
}

impl View for ClientCommand {
    type V = ClientCommandView;

    open spec fn view(&self) -> ClientCommandView {
        match self {
            ClientCommand::SendMessage { message } => ClientCommandView::SendMessage {
                message: message@,
            },
            ClientCommand::RpcCall { request, response_sink } => ClientCommandView::RpcCall {
                request: request@,
                response_sink: *response_sink,
            },
            ClientCommand::Subscribe {
                path,
                signal,
                subscription_id,
                notification_sink,
                request_id,
            } => ClientCommandView::Subscribe {
                path: path@,
                signal: signal@,
                subscription_id: *subscription_id,
                notification_sink: *notification_sink,
                request_id: *request_id,
            },
            ClientCommand::Unsubscribe { path, signal, subscription_id, request_id } => {
                ClientCommandView::Unsubscribe {
                    path: path@,
                    signal: signal@,
                    subscription_id: *subscription_id,
                    request_id: *request_id,
                }
            },
        }
    }
}

/// One effect the runtime must perform after a loop step.
#[derive(Debug, PartialEq)]
pub enum Output {
    /// Hand the message to the transport's command sink.
    SendToPeer(Message),
    /// Deliver the response into the pending call's sink.
    DeliverResponse { sink: u64, message: Message },
    /// Deliver the signal frame into a subscriber's sink.
    Notification { sink: u64, message: Message },
    /// Broadcast the connection event to the application.
    BroadcastEvent(ClientEvent),
    /// Run the handler behind the route of a fixed node.
    RunRouteHandler { mount: usize, route: usize, message: Message },
    /// Run the handler of a dynamic node.
    RunDynamicHandler { mount: usize, message: Message },
    /// Ask the dynamic node's method getter, then hand the answer back
    /// through `Client::process_dynamic_result`.
    QueryMethods { mount: usize, message: Message },
}

/// Mathematical image of an `Output`.
pub enum OutputView {
    SendToPeer(MessageView),
    DeliverResponse { sink: u64, message: MessageView },
    Notification { sink: u64, message: MessageView },
    BroadcastEvent(ClientEvent),
    RunRouteHandler { mount: int, route: int, message: MessageView },
    RunDynamicHandler { mount: int, message: MessageView },
    QueryMethods { mount: int, message: MessageView },
}

impl View for Output {
    type V = OutputView;

    open spec fn view(&self) -> OutputView {
        match self {
            Output::SendToPeer(m) => OutputView::SendToPeer(m@),
            Output::DeliverResponse { sink, message } => OutputView::DeliverResponse {
                sink: *sink,
                message: message@,
            },
            Output::Notification { sink, message } => OutputView::Notification {
                sink: *sink,
                message: message@,
            },
            Output::BroadcastEvent(e) => OutputView::BroadcastEvent(*e),
            Output::RunRouteHandler { mount, route, message } => OutputView::RunRouteHandler {
                mount: *mount as int,
                route: *route as int,
                message: message@,
            },
            Output::RunDynamicHandler { mount, message } => OutputView::RunDynamicHandler {
                mount: *mount as int,
                message: message@,
            },
            Output::QueryMethods { mount, message } => OutputView::QueryMethods {
                mount: *mount as int,
                message: message@,
            },
        }
    }
}

impl DeepView for Output {
    type V = OutputView;

    open spec fn deep_view(&self) -> OutputView {
        self.view()
    }
}

/// Shared read-only application state, cloned into every dynamic
/// dispatch.
pub struct AppData<T>(Arc<T>);

impl<T> AppData<T> {
    /// The shared value.
    pub closed spec fn value(self) -> T {
        *self.0
    }

    /// Wraps application state for sharing.
    pub fn new(data: T) -> (r: Self)
        ensures
            r.value() == data,
    {
        AppData(Arc::new(data))
    }

    /// Borrows the shared value.
    pub fn get(&self) -> (r: &T)
        ensures
            *r == self.value(),
    {
        &*self.0
    }
}

/// Relies on `Arc::clone`: the clone is a second handle to the same
/// value.
#[verifier::external_body]
fn arc_clone<T>(a: &Arc<T>) -> (r: Arc<T>)
    ensures
        r == *a,
{
    Arc::clone(a)
}

impl<T> Clone for AppData<T> {
    fn clone(&self) -> (r: Self)
        ensures
            r.value() == self.value(),
    {
        AppData(arc_clone(&self.0))
    }
}

/// Hands out the next process-wide subscription id from the counter the
/// runtime owns.
pub fn next_subscription_id(counter: &mut u64) -> (r: u64)
    requires
        *old(counter) < u64::MAX,
    ensures
        r == *old(counter),
        *final(counter) == *old(counter) + 1,
{
    let id = *counter;
    *counter = *counter + 1;
    id
}

/// The broker node that manages subscriptions.
pub open spec fn broker_app_path() -> Seq<char> {
    ".broker/app"@
}

/// The broker request that subscribes to (`subscribe` true) or
/// unsubscribes from every signal at or under `path`: the parameter map
/// carries an empty `methods` entry and the path, literally.
pub open spec fn subscription_request(path: Seq<char>, subscribe: bool, request_id: i64) -> MessageView {
    MessageView {
        kind: MsgKind::Request,
        path: Some(broker_app_path()),
        method: Some(if subscribe { "subscribe"@ } else { "unsubscribe"@ }),
        request_id: Some(request_id),
        caller_ids: Seq::empty(),
        access_level: None,
        param: Some(
            ValueView::StrMap(seq![("methods"@, Seq::<char>::empty()), ("path"@, path)]),
        ),
        result: None,
        error: None,
    }
}

/// Builds the broker subscribe or unsubscribe request for `path`.
pub fn create_subscription_request(path: &str, subscribe: bool, request_id: i64) -> (r: Message)
    ensures
        r@ == subscription_request(path@, subscribe, request_id),
{
    let mut map: Vec<(String, String)> = Vec::new();
    map.push((String::from_str("methods"), String::new()));
    map.push((String::from_str("path"), path.to_owned()));
    let method: String = if subscribe {
        String::from_str("subscribe")
    } else {
        String::from_str("unsubscribe")
    };
    let r = Message::new_request(
        String::from_str(".broker/app"),
        method,
        Some(Value::StrMap(map)),
        request_id,
    );
    proof {
        let expected = seq![("methods"@, Seq::<char>::empty()), ("path"@, path@)];
        match r@.param {
            Some(ValueView::StrMap(entries)) => {
                assert(entries =~= expected);
            },
            _ => {
                assert(false);
            },
        }
        assert(r@.caller_ids =~= Seq::<i64>::empty());
        assert(r@ == subscription_request(path@, subscribe, request_id));
    }
    r
}

/// The view of the pending-call table: request id to response sink, in
/// registration order.
pub type PendingView = Seq<(i64, u64)>;

/// Some pending call is registered under `id`.
pub open spec fn pending_has(p: PendingView, id: i64) -> bool {
    exists|k: int| 0 <= k < p.len() && p[k].0 == id
}

/// Index `k` holds the first pending call registered under `id`.
pub open spec fn is_first_pending(p: PendingView, id: i64, k: int) -> bool {
    &&& 0 <= k < p.len()
    &&& p[k].0 == id
    &&& forall|j: int| 0 <= j < k ==> p[j].0 != id
}

/// The sink of the first pending call registered under `id`.
pub open spec fn pending_sink(p: PendingView, id: i64) -> u64 {
    p[choose|k: int| is_first_pending(p, id, k)].1
}

/// The table without any call registered under `id`.
pub open spec fn pending_remove(p: PendingView, id: i64) -> PendingView {
    p.filter(|e: (i64, u64)| e.0 != id)
}

/// The loop's own state: the pending-call table, the subscription
/// registry, and whether a transport command sink is installed.
pub struct LoopState {
    pending: Vec<(i64, u64)>,
    subs: Subscriptions,
    connected: bool,
}

/// Mathematical image of a `LoopState`.
pub struct LoopStateView {
    pub pending: PendingView,
    pub subs: Seq<SubscriptionView>,
    pub connected: bool,
}

impl View for LoopState {
    type V = LoopStateView;

    closed spec fn view(&self) -> LoopStateView {
        LoopStateView { pending: self.pending@, subs: self.subs@, connected: self.connected }
    }
}

/// The outputs that forwarding `m` to the broker produces: the frame
/// when connected, silence when not.
pub open spec fn send_outputs(connected: bool, m: MessageView) -> Seq<OutputView> {
    if connected {
        seq![OutputView::SendToPeer(m)]
    } else {
        Seq::empty()
    }
}

/// One notification output per matching subscription, in the order
/// the matching listing gives.
pub open spec fn notification_outputs(pairs: Seq<(u64, u64)>, m: MessageView) -> Seq<OutputView> {
    pairs.map_values(|p: (u64, u64)| OutputView::Notification { sink: p.1, message: m })
}

/// What one loop step on an application command does to the state and
/// emits.
///
/// A `SendMessage` is forwarded when connected and dropped silently
/// when not. An `RpcCall` registers its response sink under the
/// request's id — an id already registered refuses the new sink — and
/// forwards the request. A `Subscribe` registers the sink and asks the
/// broker to subscribe exactly when it opens its (path, signal) pair; a
/// duplicate subscription id is refused. An `Unsubscribe` deregisters
/// and asks the broker to unsubscribe exactly when it closes its pair.
pub open spec fn command_step_ok(
    pre: LoopStateView,
    cmd: ClientCommandView,
    post: LoopStateView,
    outs: Seq<OutputView>,
) -> bool {
    &&& post.connected == pre.connected
    &&& match cmd {
        ClientCommandView::SendMessage { message } => post == pre && outs == send_outputs(
            pre.connected,
            message,
        ),
        ClientCommandView::RpcCall { request, response_sink } => {
            &&& post.subs == pre.subs
            &&& post.pending == if pending_has(pre.pending, request.request_id.unwrap()) {
                pre.pending
            } else {
                pre.pending.push((request.request_id.unwrap(), response_sink))
            }
            &&& outs == send_outputs(pre.connected, request)
        },
        ClientCommandView::Subscribe {
            path,
            signal,
            subscription_id,
            notification_sink,
            request_id,
        } => {
            &&& post.pending == pre.pending
            &&& if has_triple(pre.subs, path, signal, subscription_id) {
                post.subs == pre.subs && outs == Seq::<OutputView>::empty()
            } else {
                post.subs == pre.subs.push(
                    (SubscriptionView {
                        path,
                        signal,
                        id: subscription_id,
                        sink: notification_sink,
                    }),
                ) && outs == if !has_pair(pre.subs, path, signal) {
                    send_outputs(pre.connected, subscription_request(path, true, request_id))
                } else {
                    Seq::<OutputView>::empty()
                }
            }
        },
        ClientCommandView::Unsubscribe { path, signal, subscription_id, request_id } => {
            &&& post.pending == pre.pending
            &&& post.subs == pre.subs.filter(
                |e: SubscriptionView| !is_triple(e, path, signal, subscription_id),
            )
            &&& outs == if has_triple(pre.subs, path, signal, subscription_id) && !has_pair(
                post.subs,
                path,
                signal,
            ) {
                send_outputs(pre.connected, subscription_request(path, false, request_id))
            } else {
                Seq::<OutputView>::empty()
            }
        },
    }
}

impl LoopState {
    /// The state before any connection: no sink, empty tables.
    pub fn new() -> (r: LoopState)
        ensures
            r@ == (LoopStateView {
                pending: Seq::empty(),
                subs: Seq::empty(),
                connected: false,
            }),
    {
        let r = LoopState { pending: Vec::new(), subs: Subscriptions::new(), connected: false };
        assert(r@.pending =~= Seq::<(i64, u64)>::empty());
        r
    }

    /// Appends the frame to `outs` when connected; a frame sent while
    /// disconnected is dropped silently.
    fn emit(&self, m: Message, outs: &mut Vec<Output>)
        ensures
            final(outs).deep_view() == old(outs).deep_view() + send_outputs(self@.connected, m@),
    {
        let ghost pre = outs.deep_view();
        if self.connected {
            outs.push(Output::SendToPeer(m));
            assert(outs.deep_view() =~= pre + send_outputs(self@.connected, m@));
        } else {
            assert(outs.deep_view() =~= pre + send_outputs(self@.connected, m@));
        }
    }

    /// One step of the loop on a command from an application handle.
    ///
    /// A `SendMessage` is forwarded when connected and dropped silently
    /// when not. An `RpcCall` registers its response sink under the
    /// request's id — an id already registered refuses the new sink —
    /// and forwards the request. A `Subscribe` registers the sink and
    /// asks the broker to subscribe exactly when it opens its
    /// (path, signal) pair; a duplicate subscription id is refused. An
    /// `Unsubscribe` deregisters and asks the broker to unsubscribe
    /// exactly when it closes its pair.
    pub fn process_command(&mut self, cmd: ClientCommand) -> (outs: Vec<Output>)
        requires
            cmd@ matches ClientCommandView::RpcCall { request, .. } ==> request.request_id is Some,
        ensures
            command_step_ok(old(self)@, cmd@, final(self)@, outs.deep_view()),
    {
        let mut outs: Vec<Output> = Vec::new();
        assert(outs.deep_view() =~= Seq::<OutputView>::empty());
        match cmd {
            ClientCommand::SendMessage { message } => {
                self.emit(message, &mut outs);
                assert(outs.deep_view() =~= send_outputs(self@.connected, message@));
            },
            ClientCommand::RpcCall { request, response_sink } => {
                let ghost rqv = request@;
                let id = request.request_id.unwrap();
                let mut registered = false;
                let n = self.pending.len();
                for k in 0..n
                    invariant
                        n == self.pending.len(),
                        registered <==> exists|j: int| 0 <= j < k && self.pending@[j].0 == id,
                {
                    if self.pending[k].0 == id {
                        registered = true;
                        proof {
                            assert(self.pending@[k as int].0 == id);
                        }
                    }
                }
                if !registered {
                    self.pending.push((id, response_sink));
                }
                self.emit(request, &mut outs);
                assert(outs.deep_view() =~= send_outputs(self@.connected, rqv));
            },
            ClientCommand::Subscribe {
                path,
                signal,
                subscription_id,
                notification_sink,
                request_id,
            } => {
                let request = create_subscription_request(path.as_str(), true, request_id);
                match self.subs.add(path, signal, subscription_id, notification_sink) {
                    AddOutcome::First => {
                        self.emit(request, &mut outs);
                    },
                    AddOutcome::Joined => {},
                    AddOutcome::DuplicateId => {},
                }
            },
            ClientCommand::Unsubscribe { path, signal, subscription_id, request_id } => {
                let request = create_subscription_request(path.as_str(), false, request_id);
                if self.subs.remove(&path, &signal, subscription_id) {
                    self.emit(request, &mut outs);
                }
            },
        }
        outs
    }
}

/// Mathematical image of a `ConnectionEvent`.
pub enum ConnectionEventView {
    Connected,
    Disconnected,
    RpcFrameReceived(MessageView),
}

impl View for ConnectionEvent {
    type V = ConnectionEventView;

    open spec fn view(&self) -> ConnectionEventView {
        match self {
            ConnectionEvent::Connected => ConnectionEventView::Connected,
            ConnectionEvent::Disconnected => ConnectionEventView::Disconnected,
            ConnectionEvent::RpcFrameReceived(m) => ConnectionEventView::RpcFrameReceived(m@),
        }
    }
}

/// Index `i` holds the first mount at path `p`.
pub open spec fn is_first_mount_at(ms: MountsView, p: Seq<char>, i: int) -> bool {
    &&& 0 <= i < ms.len()
    &&& ms[i].0 == p
    &&& forall|j: int| 0 <= j < i ==> ms[j].0 != p
}

/// Mounting at an occupied path replaces that mount; mounting at a
/// fresh path appends.
pub open spec fn mount_insert(ms: MountsView, p: Seq<char>, n: ClientNodeView) -> MountsView {
    if exists|i: int| is_first_mount_at(ms, p, i) {
        ms.update(choose|i: int| is_first_mount_at(ms, p, i), (p, n))
    } else {
        ms.push((p, n))
    }
}

/// Two first-mount indices agree.
pub proof fn lemma_first_mount_unique(ms: MountsView, p: Seq<char>, i1: int, i2: int)
    requires
        is_first_mount_at(ms, p, i1),
        is_first_mount_at(ms, p, i2),
    ensures
        i1 == i2,
{
}

/// What the core does after deciding an inbound request: a reply goes
/// to the broker when connected, a route or dynamic-handler dispatch
/// goes to the runtime, a dynamic node first has its methods fetched.
pub open spec fn request_step_outputs(
    ms: MountsView,
    connected: bool,
    frame: MessageView,
) -> Seq<OutputView> {
    match request_action(ms, frame) {
        RequestActionView::Reply(m) => send_outputs(connected, m),
        RequestActionView::Run { mount, route, message } => seq![
            OutputView::RunRouteHandler { mount, route, message },
        ],
        RequestActionView::RunDynamic { mount, message } => Seq::empty(),
        RequestActionView::AskMethods { mount, message } => seq![
            OutputView::QueryMethods { mount, message },
        ],
        RequestActionView::Ignore => Seq::empty(),
    }
}

/// What one loop step on an inbound frame does to the state and emits.
///
/// A response is delivered to the sink registered under its request id
/// and the registration is dropped; a response under no registered id
/// is dropped silently. A signal fans out to every matching
/// subscription, in ascending subscription-id order. A request is
/// served as
/// `request_action` decides; the loop state does not change.
pub open spec fn frame_step_ok(
    ms: MountsView,
    pre: LoopStateView,
    frame: MessageView,
    post: LoopStateView,
    outs: Seq<OutputView>,
) -> bool {
    match frame.kind {
        MsgKind::Response => {
            &&& post.subs == pre.subs
            &&& post.connected == pre.connected
            &&& match frame.request_id {
                Some(id) => if pending_has(pre.pending, id) {
                    post.pending == pending_remove(pre.pending, id) && outs == seq![
                        OutputView::DeliverResponse {
                            sink: pending_sink(pre.pending, id),
                            message: frame,
                        },
                    ]
                } else {
                    post.pending == pre.pending && outs == Seq::<OutputView>::empty()
                },
                None => post.pending == pre.pending && outs == Seq::<OutputView>::empty(),
            }
        },
        MsgKind::Signal => {
            &&& post == pre
            &&& match (frame.path, frame.method) {
                (Some(p), Some(sig)) => outs == notification_outputs(
                    matching_of(pre.subs, p, sig),
                    frame,
                ),
                _ => outs == Seq::<OutputView>::empty(),
            }
        },
        MsgKind::Request => {
            &&& post == pre
            &&& outs == request_step_outputs(ms, pre.connected, frame)
        },
    }
}

/// What one loop step on a transport event does to the state and
/// emits. A gained connection is recorded and broadcast. A lost
/// connection drops the command sink, clears both tables, and is
/// broadcast. An inbound frame is served as `frame_step_ok` states.
pub open spec fn connection_step_ok(
    ms: MountsView,
    pre: LoopStateView,
    ev: ConnectionEventView,
    post: LoopStateView,
    outs: Seq<OutputView>,
) -> bool {
    match ev {
        ConnectionEventView::Connected => post == (LoopStateView { connected: true, ..pre })
            && outs == seq![OutputView::BroadcastEvent(ClientEvent::Connected)],
        ConnectionEventView::Disconnected => post == (LoopStateView {
            pending: Seq::empty(),
            subs: Seq::empty(),
            connected: false,
        }) && outs == seq![OutputView::BroadcastEvent(ClientEvent::Disconnected)],
        ConnectionEventView::RpcFrameReceived(frame) => frame_step_ok(ms, pre, frame, post, outs),
    }
}

/// The mount tree and shared application state of one client, fixed at
/// construction; the loop state lives beside it while `run` drives the
/// event loop.
pub struct Client<T> {
    mounts: Vec<Mount>,
    app_data: Option<AppData<T>>,
}

impl<T> Client<T> {
    /// The image of the mount list.
    pub closed spec fn mounts_view(&self) -> MountsView {
        self.mounts.deep_view()
    }

    /// The shared application state, when one was installed.
    pub closed spec fn spec_app_data(&self) -> Option<AppData<T>> {
        self.app_data
    }

    /// A client serving the `.app` node built from `app_node`.
    pub fn new(app_node: DotAppNode) -> (r: Self)
        ensures
            r.mounts_view().len() == 1,
            r.mounts_view()[0].0 == ".app"@,
            crate::appnodes::is_dot_app_node(r.mounts_view()[0].1, app_node@),
            r.spec_app_data() is None,
    {
        let mut client = Client { mounts: Vec::new(), app_data: None };
        let methods = crate::appnodes::app_node_methods();
        let values = crate::appnodes::app_node_values(&app_node);
        client.mount(String::from_str(".app"), ClientNode::constant(methods, values));
        client
    }

    /// A device client: `.app` plus the `.device` node built from
    /// `device_node`.
    pub fn new_device(app_node: DotAppNode, device_node: DotDeviceNode) -> (r: Self)
        ensures
            r.mounts_view().len() == 2,
            r.mounts_view()[0].0 == ".app"@,
            crate::appnodes::is_dot_app_node(r.mounts_view()[0].1, app_node@),
            r.mounts_view()[1].0 == ".device"@,
            crate::appnodes::is_dot_device_node(r.mounts_view()[1].1, device_node@),
            r.spec_app_data() is None,
    {
        let mut client = Client::new(app_node);
        let methods = crate::appnodes::app_device_node_methods();
        let values = crate::appnodes::app_device_node_values(&device_node);
        let ghost ms1 = client.mounts_view();
        let node = ClientNode::constant(methods, values);
        let ghost ndv = node@;
        client.mount(String::from_str(".device"), node);
        proof {
            reveal_strlit(".app");
            reveal_strlit(".device");
            assert(".app"@.len() == 4);
            assert(".device"@.len() == 7);
            assert(".app"@ != ".device"@);
            assert(forall|k: int| !is_first_mount_at(ms1, ".device"@, k));
            assert(client.mounts_view() == ms1.push((".device"@, ndv)));
        }
        client
    }

    /// Mounts `node` at `path`, replacing any mount already there.
    pub fn mount(&mut self, path: String, node: ClientNode)
        ensures
            final(self).mounts_view() == mount_insert(old(self).mounts_view(), path@, node@),
            final(self).spec_app_data() == old(self).spec_app_data(),
    {
        let ghost ms = self.mounts_view();
        let n = self.mounts.len();
        for i in 0..n
            invariant
                n == self.mounts.len(),
                ms == self.mounts_view(),
                ms == old(self).mounts_view(),
                self.spec_app_data() == old(self).spec_app_data(),
                forall|j: int| 0 <= j < i ==> ms[j].0 != path@,
        {
            assert(self.mounts[i as int].0@ == ms[i as int].0);
            if crate::subscriptions::str_eq(self.mounts[i].0.as_str(), path.as_str()) {
                proof {
                    assert(is_first_mount_at(ms, path@, i as int));
                    lemma_first_mount_unique(
                        ms,
                        path@,
                        i as int,
                        choose|k: int| is_first_mount_at(ms, path@, k),
                    );
                }
                let ghost pv = path@;
                let ghost nv = node@;
                let ghost pre0 = self.mounts@;
                self.mounts.remove(i);
                self.mounts.insert(i, (path, node));
                proof {
                    assert forall|j: int| 0 <= j < self.mounts@.len() implies self.mounts_view()[j]
                        == ms.update(i as int, (pv, nv))[j] by {
                        if j < i as int {
                            assert(self.mounts@[j] == pre0[j]);
                            assert(ms[j] == pre0[j].deep_view());
                        } else if j == i as int {
                            assert(self.mounts@[j].deep_view() == (pv, nv));
                        } else {
                            assert(self.mounts@[j] == pre0[j]);
                            assert(ms[j] == pre0[j].deep_view());
                        }
                    }
                    assert(self.mounts_view() =~= ms.update(i as int, (pv, nv)));
                    assert(ms == old(self).mounts_view());
                    assert(exists|k: int| is_first_mount_at(ms, pv, k));
                    assert((choose|k: int| is_first_mount_at(ms, pv, k)) == i as int);
                    assert(mount_insert(ms, pv, nv) == ms.update(i as int, (pv, nv)));
                    assert(self.mounts_view() == mount_insert(ms, pv, nv));
                }
                return ;
            }
        }
        let ghost pv = path@;
        let ghost nv = node@;
        let ghost pre0 = self.mounts@;
        self.mounts.push((path, node));
        proof {
            assert forall|j: int| 0 <= j < self.mounts@.len() implies self.mounts_view()[j]
                == ms.push((pv, nv))[j] by {
                if j < n {
                    assert(self.mounts@[j] == pre0[j]);
                    assert(ms[j] == pre0[j].deep_view());
                } else {
                    assert(self.mounts@[j].deep_view() == (pv, nv));
                }
            }
            assert(self.mounts_view() =~= ms.push((pv, nv)));
        }
    }

    /// Mounts a fixed node at `path`.
    pub fn mount_fixed(&mut self, path: String, methods: Vec<MetaMethod>, routes: Vec<Route>)
        ensures
            final(self).mounts_view() == mount_insert(
                old(self).mounts_view(),
                path@,
                (ClientNodeView::Fixed {
                    methods: methods.deep_view(),
                    routes: routes.deep_view(),
                }),
            ),
            final(self).spec_app_data() == old(self).spec_app_data(),
    {
        self.mount(path, ClientNode::fixed(methods, routes));
    }

    /// Mounts a dynamic node at `path`; the runtime keeps its method
    /// getter and handler, keyed by the mount path.
    pub fn mount_dynamic(&mut self, path: String)
        ensures
            final(self).mounts_view() == mount_insert(
                old(self).mounts_view(),
                path@,
                ClientNodeView::Dynamic,
            ),
            final(self).spec_app_data() == old(self).spec_app_data(),
    {
        self.mount(path, ClientNode::dynamic());
    }

    /// Installs the shared application state.
    pub fn with_app_data(&mut self, app_data: AppData<T>)
        ensures
            final(self).mounts_view() == old(self).mounts_view(),
            final(self).spec_app_data() == Some(app_data),
    {
        self.app_data = Some(app_data);
    }

    /// Borrows the mount list, for the runtime to resolve mount and
    /// route indices named in outputs.
    pub fn mounts(&self) -> (r: &Vec<Mount>)
        ensures
            r.deep_view() == self.mounts_view(),
    {
        &self.mounts
    }

    /// Borrows the shared application state.
    pub fn app_data(&self) -> (r: &Option<AppData<T>>)
        ensures
            *r == self.spec_app_data(),
    {
        &self.app_data
    }

    /// One step of the loop on a transport event. A gained connection
    /// is recorded and broadcast. A lost connection drops the command
    /// sink, clears both tables, and is broadcast. An inbound frame is
    /// served as `frame_step_ok` states.
    pub fn process_connection_event(&self, st: &mut LoopState, ev: ConnectionEvent) -> (outs: Vec<
        Output,
    >)
        ensures
            connection_step_ok(self.mounts_view(), old(st)@, ev@, final(st)@, outs.deep_view()),
    {
        match ev {
            ConnectionEvent::Connected => {
                st.connected = true;
                let mut outs: Vec<Output> = Vec::new();
                outs.push(Output::BroadcastEvent(ClientEvent::Connected));
                assert(outs.deep_view() =~= seq![
                    OutputView::BroadcastEvent(ClientEvent::Connected),
                ]);
                outs
            },
            ConnectionEvent::Disconnected => {
                st.connected = false;
                st.subs.clear();
                st.pending.clear();
                let mut outs: Vec<Output> = Vec::new();
                outs.push(Output::BroadcastEvent(ClientEvent::Disconnected));
                assert(outs.deep_view() =~= seq![
                    OutputView::BroadcastEvent(ClientEvent::Disconnected),
                ]);
                assert(st@.pending =~= Seq::<(i64, u64)>::empty());
                outs
            },
            ConnectionEvent::RpcFrameReceived(frame) => self.process_rpc_frame(st, frame),
        }
    }

    /// One step of the loop on an inbound frame, as `frame_step_ok`
    /// states.
    pub fn process_rpc_frame(&self, st: &mut LoopState, frame: Message) -> (outs: Vec<Output>)
        ensures
            frame_step_ok(self.mounts_view(), old(st)@, frame@, final(st)@, outs.deep_view()),
    {
        let ghost fv = frame@;
        let mut outs: Vec<Output> = Vec::new();
        assert(outs.deep_view() =~= Seq::<OutputView>::empty());
        match frame.kind {
            MsgKind::Response => {
                let id = match frame.request_id {
                    Some(id) => id,
                    None => {
                        return outs;
                    },
                };
                let ghost p0 = st@.pending;
                let n = st.pending.len();
                let mut kept: Vec<(i64, u64)> = Vec::new();
                let mut sink_found: Option<u64> = None;
                assert(kept@ =~= pending_remove(p0.subrange(0, 0), id));
                for k in 0..n
                    invariant
                        n == st.pending.len(),
                        st@.pending == p0,
                        st@ == old(st)@,
                        kept@ =~= pending_remove(p0.subrange(0, k as int), id),
                        match sink_found {
                            Some(s) => exists|j: int|
                                is_first_pending(p0, id, j) && j < k && p0[j].1 == s,
                            None => forall|j: int| 0 <= j < k ==> p0[j].0 != id,
                        },
                {
                    let e = st.pending[k];
                    assert(e == p0[k as int]);
                    if e.0 == id {
                        if sink_found.is_none() {
                            sink_found = Some(e.1);
                            assert(is_first_pending(p0, id, k as int));
                        }
                    } else {
                        kept.push(e);
                    }
                    proof {
                        reveal(Seq::filter);
                        assert(p0.subrange(0, k as int + 1).drop_last() =~= p0.subrange(
                            0,
                            k as int,
                        ));
                        assert(p0.subrange(0, k as int + 1).last() == p0[k as int]);
                    }
                    assert(kept@ =~= pending_remove(p0.subrange(0, k as int + 1), id));
                }
                assert(p0.subrange(0, n as int) =~= p0);
                match sink_found {
                    Some(sink) => {
                        st.pending = kept;
                        proof {
                            let j = choose|j: int|
                                is_first_pending(p0, id, j) && j < n && p0[j].1 == sink;
                            let j2 = choose|j2: int| is_first_pending(p0, id, j2);
                            assert(is_first_pending(p0, id, j2));
                            assert(j == j2);
                        }
                        outs.push(
                            Output::DeliverResponse { sink, message: frame },
                        );
                        assert(outs.deep_view() =~= seq![
                            OutputView::DeliverResponse { sink: pending_sink(p0, id), message: fv },
                        ]);
                    },
                    None => {},
                }
                outs
            },
            MsgKind::Signal => {
                let (path, sig): (&str, &str) = match (&frame.path, &frame.method) {
                    (Some(p), Some(s)) => (p.as_str(), s.as_str()),
                    _ => {
                        return outs;
                    },
                };
                let pairs = st.subs.matching_sinks(path, sig);
                let ghost pv = pairs@;
                let ghost fv = frame@;
                let np = pairs.len();
                assert(outs.deep_view() =~= notification_outputs(pv.subrange(0, 0), fv));
                for i in 0..np
                    invariant
                        np == pairs.len(),
                        outs@.len() == i,
                        pv == pairs@,
                        fv == frame@,
                        outs.deep_view() =~= notification_outputs(pv.subrange(0, i as int), fv),
                {
                    let ghost pre = outs.deep_view();
                    let ghost pren = outs@;
                    let o = Output::Notification { sink: pairs[i].1, message: frame.clone() };
                    let ghost ov = o@;
                    outs.push(o);
                    proof {
                        assert forall|j: int| 0 <= j < outs@.len() implies outs.deep_view()[j]
                            == notification_outputs(pv.subrange(0, i as int + 1), fv)[j] by {
                            if j < i as int {
                                assert(outs@[j] == pren[j]);
                                assert(pre[j] == pren[j].deep_view());
                                assert(pre[j] == notification_outputs(
                                    pv.subrange(0, i as int),
                                    fv,
                                )[j]);
                            } else {
                                assert(outs@[j].deep_view() == ov);
                                assert(pv.subrange(0, i as int + 1)[j] == pv[i as int]);
                            }
                        }
                        assert(outs.deep_view() =~= notification_outputs(
                            pv.subrange(0, i as int + 1),
                            fv,
                        ));
                    }
                }
                assert(pv.subrange(0, np as int) =~= pv);
                outs
            },
            MsgKind::Request => {
                let action = crate::clientnode::process_request(&self.mounts, &frame);
                match action {
                    RequestAction::Reply(m) => {
                        st.emit(m, &mut outs);
                        assert(outs.deep_view() =~= send_outputs(st@.connected, m@));
                    },
                    RequestAction::Run { mount, route, message } => {
                        outs.push(Output::RunRouteHandler { mount, route, message });
                        assert(outs.deep_view() =~= request_step_outputs(
                            self.mounts_view(),
                            st@.connected,
                            frame@,
                        ));
                    },
                    RequestAction::RunDynamic { mount, message } => {},
                    RequestAction::AskMethods { mount, message } => {
                        outs.push(Output::QueryMethods { mount, message });
                        assert(outs.deep_view() =~= request_step_outputs(
                            self.mounts_view(),
                            st@.connected,
                            frame@,
                        ));
                    },
                    RequestAction::Ignore => {},
                }
                outs
            },
        }
    }

    /// What serving a dynamic node's request emits once the method
    /// getter has answered.
    pub fn process_dynamic_result(
        &self,
        st: &LoopState,
        mount: usize,
        message: Message,
        methods: Option<Vec<MetaMethod>>,
    ) -> (outs: Vec<Output>)
        ensures
            outs.deep_view() == dynamic_step_outputs(
                st@.connected,
                mount as int,
                message@,
                methods.deep_view(),
            ),
    {
        let mut outs: Vec<Output> = Vec::new();
        assert(outs.deep_view() =~= Seq::<OutputView>::empty());
        let action = crate::clientnode::process_dynamic_request(mount, message, methods);
        match action {
            RequestAction::Reply(m) => {
                st.emit(m, &mut outs);
                assert(outs.deep_view() =~= send_outputs(st@.connected, m@));
            },
            RequestAction::RunDynamic { mount, message } => {
                outs.push(Output::RunDynamicHandler { mount, message });
                assert(outs.deep_view()[0] is RunDynamicHandler);
            },
            RequestAction::Run { .. } => {},
            RequestAction::AskMethods { .. } => {},
            RequestAction::Ignore => {},
        }
        outs
    }
}

/// What the core emits for a dynamic node's request once the method
/// getter has answered: the decided reply to the broker when connected,
/// or the dispatch into the node's handler.
pub open spec fn dynamic_step_outputs(
    connected: bool,
    mount: int,
    message: MessageView,
    methods: Option<Seq<crate::metamethod::MetaMethodView>>,
) -> Seq<OutputView> {
    match dynamic_action(mount, message, methods) {
        RequestActionView::Reply(m) => send_outputs(connected, m),
        RequestActionView::RunDynamic { mount, message } => seq![
            OutputView::RunDynamicHandler { mount, message },
        ],
        RequestActionView::Run { .. } => Seq::empty(),
        RequestActionView::AskMethods { .. } => Seq::empty(),
        RequestActionView::Ignore => Seq::empty(),
    }
}

} // verus!
