//! The guarantees the core gives across its step relations, each
//! proved from the contracts alone.

use vstd::prelude::*;
use crate::client::ClientCommandView;
use crate::client::ConnectionEventView;
use crate::client::LoopStateView;
use crate::client::OutputView;
use crate::client::command_step_ok;
use crate::client::connection_step_ok;
use crate::client::frame_step_ok;
use crate::client::notification_outputs;
use crate::client::pending_has;
use crate::client::pending_remove;
use crate::client::pending_sink;
use crate::client::is_first_pending;
use crate::client::send_outputs;
use crate::client::subscription_request;
use crate::client::PendingView;
use crate::clientnode::MountsView;
use crate::message::MessageView;
use crate::message::MsgKind;
use crate::metamethod::MetaMethodView;
use crate::metamethod::has_method;
use crate::metamethod::method_named;
use crate::metamethod::AccessLevel;
use crate::subscriptions::SubscriptionView;
use crate::subscriptions::entry_matches;
use crate::subscriptions::has_pair;
use crate::subscriptions::has_triple;
use crate::subscriptions::is_pair;
use crate::subscriptions::is_triple;
use crate::subscriptions::matching_of;
use crate::subscriptions::lemma_matching_of_complete;

verus! {

/// How many subscriptions of the (path, signal) pair the registry
/// holds: the size of the pair's bucket.
pub open spec fn pair_count(s: Seq<SubscriptionView>, path: Seq<char>, signal: Seq<char>) -> int {
    s.filter(|e: SubscriptionView| is_pair(e, path, signal)).len() as int
}

/// The bucket is empty exactly when the registry holds no entry of the
/// pair.
pub proof fn lemma_pair_count_zero(s: Seq<SubscriptionView>, path: Seq<char>, signal: Seq<char>)
    ensures
        pair_count(s, path, signal) == 0 <==> !has_pair(s, path, signal),
    decreases s.len(),
{
    reveal(Seq::filter);
    if s.len() > 0 {
        lemma_pair_count_zero(s.drop_last(), path, signal);
        if has_pair(s, path, signal) {
            let i = choose|i: int| 0 <= i < s.len() && is_pair(s[i], path, signal);
            if i < s.len() - 1 {
                assert(s.drop_last()[i] == s[i]);
                assert(has_pair(s.drop_last(), path, signal));
            }
        }
        if has_pair(s.drop_last(), path, signal) {
            let i = choose|i: int|
                0 <= i < s.drop_last().len() && is_pair(s.drop_last()[i], path, signal);
            assert(s[i] == s.drop_last()[i]);
            assert(has_pair(s, path, signal));
        }
    }
}

/// Appending an entry grows its own pair's bucket by one and no other.
pub proof fn lemma_pair_count_push(
    s: Seq<SubscriptionView>,
    e: SubscriptionView,
    path: Seq<char>,
    signal: Seq<char>,
)
    ensures
        pair_count(s.push(e), path, signal) == pair_count(s, path, signal) + if is_pair(
            e,
            path,
            signal,
        ) {
            1int
        } else {
            0int
        },
{
    reveal(Seq::filter);
    assert(s.push(e).drop_last() =~= s);
    assert(s.push(e).last() == e);
}

/// An output that hands the broker a subscribe (or unsubscribe)
/// request for `path`, under whatever request id was spent on it.
pub open spec fn is_broker_subscription_output(o: OutputView, path: Seq<char>, subscribe: bool) -> bool {
    exists|id: i64| o == OutputView::SendToPeer(subscription_request(path, subscribe, id))
}

/// How many subscribe (or unsubscribe) requests for `path` a step
/// emitted.
pub open spec fn broker_request_count(outs: Seq<OutputView>, path: Seq<char>, subscribe: bool) -> int {
    outs.filter(|o: OutputView| is_broker_subscription_output(o, path, subscribe)).len() as int
}

/// A loop step on a `Subscribe` command asks the broker to subscribe
/// exactly when the (path, signal) bucket goes from empty to occupied
/// while a connection is up, and then exactly once. Disconnected, the
/// request is dropped silently, as a `SendMessage` would be.
pub proof fn law_subscribe_requests_match_transitions(
    pre: LoopStateView,
    cmd: ClientCommandView,
    post: LoopStateView,
    outs: Seq<OutputView>,
    path: Seq<char>,
    signal: Seq<char>,
    subscription_id: u64,
    notification_sink: u64,
    request_id: i64,
)
    requires
        command_step_ok(pre, cmd, post, outs),
        cmd == (ClientCommandView::Subscribe {
            path,
            signal,
            subscription_id,
            notification_sink,
            request_id,
        }),
    ensures
        broker_request_count(outs, path, true) == if pre.connected && pair_count(
            pre.subs,
            path,
            signal,
        ) == 0 && pair_count(post.subs, path, signal) > 0 {
            1int
        } else {
            0int
        },
{
    reveal(Seq::filter);
    lemma_pair_count_zero(pre.subs, path, signal);
    if has_triple(pre.subs, path, signal, subscription_id) {
        let i = choose|i: int|
            0 <= i < pre.subs.len() && is_triple(pre.subs[i], path, signal, subscription_id);
        assert(is_pair(pre.subs[i], path, signal));
        assert(has_pair(pre.subs, path, signal));
        assert(outs.filter(
            |o: OutputView| is_broker_subscription_output(o, path, true),
        ).len() == 0);
    } else {
        let e = SubscriptionView { path, signal, id: subscription_id, sink: notification_sink };
        lemma_pair_count_push(pre.subs, e, path, signal);
        assert(is_pair(e, path, signal));
        assert(pair_count(post.subs, path, signal) > 0);
        if !has_pair(pre.subs, path, signal) && pre.connected {
            let req = OutputView::SendToPeer(subscription_request(path, true, request_id));
            assert(outs == seq![req]);
            assert(is_broker_subscription_output(req, path, true));
            assert(outs.drop_last() =~= Seq::<OutputView>::empty());
            assert(broker_request_count(outs, path, true) == 1);
        } else if !has_pair(pre.subs, path, signal) {
            assert(outs == Seq::<OutputView>::empty());
        } else {
            assert(pair_count(pre.subs, path, signal) != 0);
        }
    }
}

/// A loop step on an `Unsubscribe` command shrinks the (path, signal)
/// bucket when its subscription was registered, and asks the broker to
/// unsubscribe exactly when the bucket empties while a connection is
/// up, and then exactly once.
pub proof fn law_unsubscribe_requests_match_transitions(
    pre: LoopStateView,
    cmd: ClientCommandView,
    post: LoopStateView,
    outs: Seq<OutputView>,
    path: Seq<char>,
    signal: Seq<char>,
    subscription_id: u64,
    request_id: i64,
)
    requires
        command_step_ok(pre, cmd, post, outs),
        cmd == (ClientCommandView::Unsubscribe { path, signal, subscription_id, request_id }),
    ensures
        has_triple(pre.subs, path, signal, subscription_id) ==> pair_count(post.subs, path, signal)
            < pair_count(pre.subs, path, signal),
        broker_request_count(outs, path, false) == if pre.connected && has_triple(
            pre.subs,
            path,
            signal,
            subscription_id,
        ) && !has_pair(post.subs, path, signal) {
            1int
        } else {
            0int
        },
{
    reveal(Seq::filter);
    if has_triple(pre.subs, path, signal, subscription_id) {
        lemma_unsubscribe_shrinks(pre.subs, path, signal, subscription_id);
        if !has_pair(post.subs, path, signal) && pre.connected {
            let req = OutputView::SendToPeer(subscription_request(path, false, request_id));
            assert(outs == seq![req]);
            assert(is_broker_subscription_output(req, path, false));
            assert(outs.drop_last() =~= Seq::<OutputView>::empty());
            assert(broker_request_count(outs, path, false) == 1);
        } else if !has_pair(post.subs, path, signal) {
            assert(outs == Seq::<OutputView>::empty());
        }
    }
}

/// Deregistering a registered subscription strictly shrinks its pair's
/// bucket.
proof fn lemma_unsubscribe_shrinks(
    s: Seq<SubscriptionView>,
    path: Seq<char>,
    signal: Seq<char>,
    id: u64,
)
    requires
        has_triple(s, path, signal, id),
    ensures
        pair_count(
            s.filter(|e: SubscriptionView| !is_triple(e, path, signal, id)),
            path,
            signal,
        ) < pair_count(s, path, signal),
    decreases s.len(),
{
    reveal(Seq::filter);
    let kept = s.filter(|e: SubscriptionView| !is_triple(e, path, signal, id));
    let front = s.drop_last();
    let front_kept = front.filter(|e: SubscriptionView| !is_triple(e, path, signal, id));
    if is_triple(s.last(), path, signal, id) {
        assert(kept == front_kept);
        lemma_pair_count_mono(front, path, signal, id);
        assert(pair_count(s, path, signal) == pair_count(front, path, signal) + 1) by {
            assert(is_pair(s.last(), path, signal));
        }
    } else {
        assert(exists|i: int| 0 <= i < front.len() && is_triple(front[i], path, signal, id)) by {
            let i = choose|i: int| 0 <= i < s.len() && is_triple(s[i], path, signal, id);
            assert(front[i] == s[i]);
        }
        lemma_unsubscribe_shrinks(front, path, signal, id);
        assert(kept == front_kept.push(s.last()));
        lemma_pair_count_push(front_kept, s.last(), path, signal);
        lemma_pair_count_push(front, s.last(), path, signal);
    }
}

/// Dropping entries never grows a bucket.
proof fn lemma_pair_count_mono(
    s: Seq<SubscriptionView>,
    path: Seq<char>,
    signal: Seq<char>,
    id: u64,
)
    ensures
        pair_count(
            s.filter(|e: SubscriptionView| !is_triple(e, path, signal, id)),
            path,
            signal,
        ) <= pair_count(s, path, signal),
    decreases s.len(),
{
    reveal(Seq::filter);
    if s.len() > 0 {
        let front = s.drop_last();
        lemma_pair_count_mono(front, path, signal, id);
        let front_kept = front.filter(|e: SubscriptionView| !is_triple(e, path, signal, id));
        if !is_triple(s.last(), path, signal, id) {
            lemma_pair_count_push(front_kept, s.last(), path, signal);
            lemma_pair_count_push(front, s.last(), path, signal);
        } else {
            lemma_pair_count_push(front, s.last(), path, signal);
        }
    }
}

/// On a lost connection, both tables are empty before the next event
/// is processed.
pub proof fn law_disconnect_clears_tables(
    ms: MountsView,
    pre: LoopStateView,
    post: LoopStateView,
    outs: Seq<OutputView>,
)
    requires
        connection_step_ok(ms, pre, ConnectionEventView::Disconnected, post, outs),
    ensures
        post.pending == Seq::<(i64, u64)>::empty(),
        post.subs == Seq::<SubscriptionView>::empty(),
{
}

/// A registered subscription that matches an arriving signal frame is
/// handed that frame: the step emits a notification to its sink.
pub proof fn law_signal_delivered(
    ms: MountsView,
    pre: LoopStateView,
    frame: MessageView,
    post: LoopStateView,
    outs: Seq<OutputView>,
    i: int,
)
    requires
        frame_step_ok(ms, pre, frame, post, outs),
        frame.kind == MsgKind::Signal,
        frame.path is Some,
        frame.method is Some,
        0 <= i < pre.subs.len(),
        entry_matches(pre.subs[i], frame.path.unwrap(), frame.method.unwrap()),
    ensures
        exists|k: int|
            0 <= k < outs.len() && outs[k] == (OutputView::Notification {
                sink: pre.subs[i].sink,
                message: frame,
            }),
{
    let p = frame.path.unwrap();
    let sig = frame.method.unwrap();
    lemma_matching_of_complete(pre.subs, p, sig, i);
    let m = matching_of(pre.subs, p, sig);
    let k = choose|k: int| 0 <= k < m.len() && m[k] == (pre.subs[i].id, pre.subs[i].sink);
    assert(outs[k] == (OutputView::Notification { sink: pre.subs[i].sink, message: frame }));
}

/// Two first-registration indices agree.
proof fn lemma_first_pending_unique(p: PendingView, id: i64, k1: int, k2: int)
    requires
        is_first_pending(p, id, k1),
        is_first_pending(p, id, k2),
    ensures
        k1 == k2,
{
}

/// Removing an id that was never registered changes nothing.
proof fn lemma_pending_remove_absent(p: PendingView, id: i64)
    requires
        !pending_has(p, id),
    ensures
        pending_remove(p, id) == p,
    decreases p.len(),
{
    reveal(Seq::filter);
    if p.len() > 0 {
        let front = p.drop_last();
        assert(!pending_has(front, id)) by {
            if pending_has(front, id) {
                let k = choose|k: int| 0 <= k < front.len() && front[k].0 == id;
                assert(p[k].0 == id);
            }
        }
        lemma_pending_remove_absent(front, id);
        assert(p[p.len() - 1].0 != id);
        assert(pending_remove(p, id) =~= p);
    }
}

/// Round trip: a call registered under a fresh request id has the
/// matching response delivered to its sink exactly once, and the
/// registration is gone afterwards.
pub proof fn law_rpc_round_trip(
    ms: MountsView,
    st0: LoopStateView,
    st1: LoopStateView,
    st2: LoopStateView,
    request: MessageView,
    response_sink: u64,
    outs1: Seq<OutputView>,
    outs2: Seq<OutputView>,
    response: MessageView,
)
    requires
        request.request_id is Some,
        !pending_has(st0.pending, request.request_id.unwrap()),
        command_step_ok(
            st0,
            ClientCommandView::RpcCall { request, response_sink },
            st1,
            outs1,
        ),
        frame_step_ok(ms, st1, response, st2, outs2),
        response.kind == MsgKind::Response,
        response.request_id == request.request_id,
    ensures
        outs2 == seq![
            OutputView::DeliverResponse { sink: response_sink, message: response },
        ],
        st2.pending == st0.pending,
        !pending_has(st2.pending, request.request_id.unwrap()),
{
    let id = request.request_id.unwrap();
    let e = (id, response_sink);
    assert(st1.pending == st0.pending.push(e));
    assert(pending_has(st1.pending, id)) by {
        assert(st1.pending[st0.pending.len() as int].0 == id);
    }
    assert(is_first_pending(st1.pending, id, st0.pending.len() as int)) by {
        assert(forall|j: int|
            0 <= j < st0.pending.len() ==> st1.pending[j] == st0.pending[j]);
    }
    lemma_first_pending_unique(
        st1.pending,
        id,
        st0.pending.len() as int,
        choose|k: int| is_first_pending(st1.pending, id, k),
    );
    assert(pending_sink(st1.pending, id) == response_sink);
    assert(pending_remove(st1.pending, id) == st0.pending) by {
        reveal(Seq::filter);
        assert(st1.pending.drop_last() =~= st0.pending);
        lemma_pending_remove_absent(st0.pending, id);
    }
}

/// Access control: a request to a fixed node's method under an access
/// level below the method's minimum is answered `PermissionDenied`.
pub proof fn law_fixed_access_denied(
    ms: MountsView,
    rq: MessageView,
    i: int,
    methods: Seq<MetaMethodView>,
    routes: Seq<crate::clientnode::RouteView>,
    level: AccessLevel,
)
    requires
        rq.kind == MsgKind::Request,
        rq.request_id is Some,
        crate::clientnode::is_best_mount(ms, rq.path_or_empty(), i),
        ms[i].1 == (crate::clientnode::ClientNodeView::Fixed { methods, routes }),
        crate::clientnode::mount_rest(ms[i].0, rq.path_or_empty()).len() == 0,
        rq.method_or_empty() != "dir"@,
        rq.method_or_empty() != "ls"@,
        has_method(methods, rq.method_or_empty()),
        rq.access_level == Some(level),
        level.rank() < method_named(methods, rq.method_or_empty()).access.rank(),
    ensures
        crate::clientnode::request_action(ms, rq) == crate::clientnode::RequestActionView::Reply(
            crate::message::error_response(
                rq,
                crate::message::ErrorCode::PermissionDenied,
                crate::clientnode::text_permission_denied(),
            ),
        ),
{
    crate::clientnode::lemma_best_mount_unique(
        ms,
        rq.path_or_empty(),
        i,
        crate::clientnode::best_mount_idx(ms, rq.path_or_empty()),
    );
}

/// Access control: a dynamic node's method under an access level below
/// its minimum is answered `PermissionDenied`, and the handler is not
/// run: the step's outputs hold no handler dispatch.
pub proof fn law_dynamic_access_denied(
    mount: int,
    rq: MessageView,
    methods: Seq<MetaMethodView>,
    level: AccessLevel,
)
    requires
        rq.request_id is Some,
        rq.method_or_empty() != "dir"@,
        has_method(methods, rq.method_or_empty()),
        rq.access_level == Some(level),
        level.rank() < method_named(methods, rq.method_or_empty()).access.rank(),
    ensures
        crate::clientnode::dynamic_action(mount, rq, Some(methods))
            == crate::clientnode::RequestActionView::Reply(
            crate::message::error_response(
                rq,
                crate::message::ErrorCode::PermissionDenied,
                crate::clientnode::text_permission_denied(),
            ),
        ),
{
}

/// A denied request runs no handler: when the step relation holds of a
/// request frame whose decided action is a reply, every output is a
/// frame to the broker, never a handler dispatch.
pub proof fn law_reply_runs_no_handler(
    ms: MountsView,
    pre: LoopStateView,
    frame: MessageView,
    post: LoopStateView,
    outs: Seq<OutputView>,
)
    requires
        frame_step_ok(ms, pre, frame, post, outs),
        frame.kind == MsgKind::Request,
        crate::clientnode::request_action(ms, frame) matches
            crate::clientnode::RequestActionView::Reply(m),
    ensures
        forall|k: int|
            0 <= k < outs.len() ==> !(outs[k] is RunRouteHandler) && !(outs[k] is RunDynamicHandler),
{
}

} // verus!
