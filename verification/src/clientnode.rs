//! The mount tree: nodes mounted at absolute paths, longest-prefix
//! lookup on segment boundaries, the built-in `dir`/`ls` surface, and
//! the dispatch decision for inbound requests.

use vstd::prelude::*;
use vstd::string::StrSliceExecFns;
use vstd::string::StringExecFns;
use crate::metamethod::MetaMethod;
use crate::metamethod::MetaMethodView;
use crate::metamethod::AccessLevel;
use crate::metamethod::has_method;
use crate::metamethod::method_named;
use crate::message::MessageView;
use crate::message::Message;
use crate::message::ErrorCode;
use crate::message::ok_response;
use crate::message::error_response;
use crate::message::with_path;
use crate::shvpath::starts_on_boundary;
use crate::shvpath::strip_on_boundary;
use crate::shvpath::is_first_slash;
use crate::shvpath::path_starts_on_boundary;
use crate::shvpath::strip_path_on_boundary;
use crate::shvpath::first_segment;
use crate::subscriptions::str_eq;
use crate::value::Value;
use crate::value::ValueView;

verus! {

/// Where a fixed node's route sends a request.
#[derive(Clone, Copy, Debug, PartialEq, Eq, Structural)]
pub enum RouteTarget {
    /// The built-in `.app` node logic.
    AppNode,
    /// The built-in `.device` node logic.
    DeviceNode,
    /// A handler the embedding runtime registered, by its handle.
    External(u64),
}

/// A set of method names and the handler serving them.
pub struct Route {
    pub methods: Vec<String>,
    pub target: RouteTarget,
}

/// Mathematical image of a `Route`.
pub struct RouteView {
    pub methods: Seq<Seq<char>>,
    pub target: RouteTarget,
}

impl View for Route {
    type V = RouteView;

    open spec fn view(&self) -> RouteView {
        RouteView { methods: self.methods.deep_view(), target: self.target }
    }
}

impl DeepView for Route {
    type V = RouteView;

    open spec fn deep_view(&self) -> RouteView {
        self.view()
    }
}

impl Route {
    /// A new route binding the method names to the target.
    pub fn new(methods: Vec<String>, target: RouteTarget) -> (r: Route)
        ensures
            r@ == (RouteView { methods: methods.deep_view(), target }),
    {
        Route { methods, target }
    }
}

/// A node mounted in the tree.
pub enum ClientNode {
    /// A fixed method set answered from fixed values: a getter named in
    /// `methods` returns the value bound to it in `values`.
    Constant { methods: Vec<MetaMethod>, values: Vec<(String, Value)> },
    /// A fixed method set served by route handlers.
    Fixed { methods: Vec<MetaMethod>, routes: Vec<Route> },
    /// A node whose method list and handler the embedding runtime
    /// supplies per sub-path, on demand.
    Dynamic,
}

/// Mathematical image of a `ClientNode`.
pub enum ClientNodeView {
    Constant { methods: Seq<MetaMethodView>, values: Seq<(Seq<char>, ValueView)> },
    Fixed { methods: Seq<MetaMethodView>, routes: Seq<RouteView> },
    Dynamic,
}

impl View for ClientNode {
    type V = ClientNodeView;

    open spec fn view(&self) -> ClientNodeView {
        match self {
            ClientNode::Constant { methods, values } => ClientNodeView::Constant {
                methods: methods.deep_view(),
                values: values_view(values@),
            },
            ClientNode::Fixed { methods, routes } => ClientNodeView::Fixed {
                methods: methods.deep_view(),
                routes: routes.deep_view(),
            },
            ClientNode::Dynamic => ClientNodeView::Dynamic,
        }
    }
}

impl DeepView for ClientNode {
    type V = ClientNodeView;

    open spec fn deep_view(&self) -> ClientNodeView {
        self.view()
    }
}

impl ClientNode {
    /// A constant node.
    pub fn constant(methods: Vec<MetaMethod>, values: Vec<(String, Value)>) -> (r: ClientNode)
        ensures
            r == (ClientNode::Constant { methods, values }),
    {
        ClientNode::Constant { methods, values }
    }

    /// A fixed node.
    pub fn fixed(methods: Vec<MetaMethod>, routes: Vec<Route>) -> (r: ClientNode)
        ensures
            r == (ClientNode::Fixed { methods, routes }),
    {
        ClientNode::Fixed { methods, routes }
    }

    /// A dynamic node.
    pub fn dynamic() -> (r: ClientNode)
        ensures
            r == ClientNode::Dynamic,
    {
        ClientNode::Dynamic
    }
}

/// One mount: an absolute path and the node at it.
pub type Mount = (String, ClientNode);

/// The image of the mount list.
pub type MountsView = Seq<(Seq<char>, ClientNodeView)>;

/// A mount at `prefix` covers `path`: the root mount covers every
/// path, any other must be a boundary prefix.
pub open spec fn mount_prefix(prefix: Seq<char>, path: Seq<char>) -> bool {
    prefix.len() == 0 || starts_on_boundary(prefix, path)
}

/// What remains of `path` below a covering mount at `prefix`.
pub open spec fn mount_rest(prefix: Seq<char>, path: Seq<char>) -> Seq<char> {
    if prefix.len() == 0 {
        path
    } else {
        strip_on_boundary(prefix, path)
    }
}

/// Decides `mount_prefix(prefix@, path@)`.
pub fn is_mount_prefix(prefix: &str, path: &str) -> (r: bool)
    ensures
        r == mount_prefix(prefix@, path@),
{
    prefix.is_empty() || path_starts_on_boundary(prefix, path)
}

/// Computes `mount_rest(prefix@, path@)`.
pub fn mount_rest_of(prefix: &str, path: &str) -> (r: String)
    requires
        mount_prefix(prefix@, path@),
    ensures
        r@ == mount_rest(prefix@, path@),
{
    if prefix.is_empty() {
        path.to_owned()
    } else {
        strip_path_on_boundary(prefix, path)
    }
}

/// Index `i` names the mount whose path is the longest prefix of
/// `path` on a segment boundary; the earliest such mount on a tie.
pub open spec fn is_best_mount(ms: MountsView, path: Seq<char>, i: int) -> bool {
    &&& 0 <= i < ms.len()
    &&& mount_prefix(ms[i].0, path)
    &&& forall|j: int|
        0 <= j < ms.len() && mount_prefix(ms[j].0, path) ==> (ms[j].0.len() < ms[i].0.len()
            || (ms[j].0.len() == ms[i].0.len() && j >= i))
}

/// Some mount covers `path`.
pub open spec fn has_mount_prefix(ms: MountsView, path: Seq<char>) -> bool {
    exists|i: int| 0 <= i < ms.len() && mount_prefix(ms[i].0, path)
}

/// Finds the mount whose path is the longest boundary prefix of `path`,
/// together with what remains of `path` below it.
pub fn find_longest_prefix(mounts: &Vec<Mount>, path: &str) -> (r: Option<(usize, String)>)
    ensures
        match r {
            Some((i, rest)) => is_best_mount(mounts.deep_view(), path@, i as int) && rest@
                == mount_rest(mounts.deep_view()[i as int].0, path@),
            None => !has_mount_prefix(mounts.deep_view(), path@),
        },
{
    let ghost ms = mounts.deep_view();
    let n = mounts.len();
    let mut best: Option<usize> = None;
    for i in 0..n
        invariant
            n == mounts.len(),
            ms == mounts.deep_view(),
            match best {
                Some(b) => b < i && mount_prefix(ms[b as int].0, path@) && forall|j: int|
                    0 <= j < i && mount_prefix(ms[j].0, path@) ==> (ms[j].0.len()
                        < ms[b as int].0.len() || (ms[j].0.len() == ms[b as int].0.len() && j
                        >= b as int)),
                None => forall|j: int| 0 <= j < i ==> !mount_prefix(ms[j].0, path@),
            },
    {
        assert(mounts[i as int].0@ == ms[i as int].0);
        if is_mount_prefix(mounts[i].0.as_str(), path) {
            match best {
                None => {
                    best = Some(i);
                },
                Some(b) => {
                    if mounts[i].0.unicode_len() > mounts[b].0.unicode_len() {
                        best = Some(i);
                    }
                },
            }
        }
    }
    match best {
        Some(b) => {
            let rest = mount_rest_of(mounts[b].0.as_str(), path);
            Some((b, rest))
        },
        None => None,
    }
}

/// The mount path lies strictly below the directory `dir`.
pub open spec fn strictly_under(m: Seq<char>, dir: Seq<char>) -> bool {
    mount_prefix(dir, m) && m.len() > dir.len()
}

/// Some mount lies strictly below `dir`.
pub open spec fn has_child_mount(ms: MountsView, dir: Seq<char>) -> bool {
    exists|i: int| 0 <= i < ms.len() && strictly_under(ms[i].0, dir)
}

/// The index of the first `/` of `path` (its length when none).
pub open spec fn first_slash_idx(path: Seq<char>) -> int {
    choose|i: int| is_first_slash(path, i)
}

/// A first `/` index always exists.
pub proof fn lemma_first_slash_exists(path: Seq<char>)
    ensures
        exists|i: int| is_first_slash(path, i),
    decreases path.len(),
{
    if forall|j: int| 0 <= j < path.len() ==> path[j] != '/' {
        assert(is_first_slash(path, path.len() as int));
    } else {
        let w = choose|j: int| 0 <= j < path.len() && path[j] == '/';
        lemma_first_slash_bounded(path, w);
    }
}

/// Below any known `/` there is a first one.
proof fn lemma_first_slash_bounded(path: Seq<char>, w: int)
    requires
        0 <= w < path.len(),
        path[w] == '/',
    ensures
        exists|i: int| is_first_slash(path, i),
    decreases w,
{
    if forall|j: int| 0 <= j < w ==> path[j] != '/' {
        assert(is_first_slash(path, w));
    } else {
        let w2 = choose|j: int| 0 <= j < w && path[j] == '/';
        lemma_first_slash_bounded(path, w2);
    }
}

/// The first `/` index is unique.
pub proof fn lemma_first_slash_unique(path: Seq<char>, i1: int, i2: int)
    requires
        is_first_slash(path, i1),
        is_first_slash(path, i2),
    ensures
        i1 == i2,
{
}

/// The leading segment of `path`.
pub open spec fn first_seg_of(path: Seq<char>) -> Seq<char> {
    path.subrange(0, first_slash_idx(path))
}

/// `first_slash_idx` is indeed the first `/`.
pub proof fn lemma_first_slash_idx(path: Seq<char>)
    ensures
        is_first_slash(path, first_slash_idx(path)),
{
    lemma_first_slash_exists(path);
}

/// Returns the leading segment of `path`, as `first_seg_of` names it.
pub fn leading_segment(path: &str) -> (r: String)
    ensures
        r@ == first_seg_of(path@),
{
    let r = first_segment(path);
    proof {
        let i = choose|i: int| is_first_slash(path@, i) && r@ == path@.subrange(0, i);
        lemma_first_slash_idx(path@);
        lemma_first_slash_unique(path@, i, first_slash_idx(path@));
    }
    r
}

/// The immediate child segments below `dir`, in first-appearance order,
/// each once.
pub open spec fn children_list(ms: MountsView, dir: Seq<char>) -> Seq<Seq<char>>
    decreases ms.len(),
{
    if ms.len() == 0 {
        Seq::empty()
    } else {
        let rest = children_list(ms.drop_last(), dir);
        let m = ms.last().0;
        if strictly_under(m, dir) {
            let seg = first_seg_of(mount_rest(dir, m));
            if rest.contains(seg) {
                rest
            } else {
                rest.push(seg)
            }
        } else {
            rest
        }
    }
}

/// Whether the vector holds a string whose view is `s@`.
pub fn contains_string(v: &Vec<String>, s: &str) -> (r: bool)
    ensures
        r == v.deep_view().contains(s@),
{
    let n = v.len();
    for i in 0..n
        invariant
            n == v.len(),
            forall|j: int| 0 <= j < i ==> v.deep_view()[j] != s@,
    {
        assert(v[i as int]@ == v.deep_view()[i as int]);
        if str_eq(v[i].as_str(), s) {
            assert(v.deep_view()[i as int] == s@);
            return true;
        }
    }
    false
}

/// Computes `children_list(mounts, dir)`.
pub fn direct_children(mounts: &Vec<Mount>, dir: &str) -> (r: Vec<String>)
    ensures
        r.deep_view() == children_list(mounts.deep_view(), dir@),
{
    let ghost ms = mounts.deep_view();
    let n = mounts.len();
    let dlen = dir.unicode_len();
    let mut out: Vec<String> = Vec::new();
    assert(out.deep_view() =~= children_list(ms.subrange(0, 0), dir@));
    for i in 0..n
        invariant
            n == mounts.len(),
            ms == mounts.deep_view(),
            dlen == dir@.len(),
            out.deep_view() =~= children_list(ms.subrange(0, i as int), dir@),
    {
        assert(mounts[i as int].0@ == ms[i as int].0);
        if is_mount_prefix(dir, mounts[i].0.as_str()) && mounts[i].0.unicode_len() > dlen {
            let rest = mount_rest_of(dir, mounts[i].0.as_str());
            let seg = leading_segment(rest.as_str());
            if !contains_string(&out, seg.as_str()) {
                out.push(seg);
            }
        }
        proof {
            assert(ms.subrange(0, i as int + 1).drop_last() =~= ms.subrange(0, i as int));
            assert(ms.subrange(0, i as int + 1).last() == ms[i as int]);
        }
        assert(out.deep_view() =~= children_list(ms.subrange(0, i as int + 1), dir@));
    }
    assert(ms.subrange(0, n as int) =~= ms);
    out
}

/// The image of a constant node's value table.
pub open spec fn values_view(vs: Seq<(String, Value)>) -> Seq<(Seq<char>, ValueView)> {
    vs.map_values(|p: (String, Value)| (p.0@, p.1@))
}

/// The first value bound to `name` in a constant node's table, or null
/// when none is.
pub open spec fn value_for(values: Seq<(Seq<char>, ValueView)>, name: Seq<char>) -> ValueView
    decreases values.len(),
{
    if values.len() == 0 {
        ValueView::Null
    } else if values[0].0 == name {
        values[0].1
    } else {
        value_for(values.drop_first(), name)
    }
}

/// What `dir` returns over the method list `methods`: the whole list,
/// or with a string argument the descriptor so named (null when there
/// is none).
pub open spec fn dir_value(methods: Seq<MetaMethodView>, param: Option<ValueView>) -> ValueView {
    match param {
        Some(ValueView::Str(s)) => if has_method(methods, s) {
            ValueView::Method(method_named(methods, s))
        } else {
            ValueView::Null
        },
        _ => ValueView::MethodList(methods),
    }
}

/// What `ls` returns over the child listing `children`: the listing,
/// or with a string argument whether that child exists.
pub open spec fn ls_value(children: Seq<Seq<char>>, param: Option<ValueView>) -> ValueView {
    match param {
        Some(ValueView::Str(s)) => ValueView::Bool(children.contains(s)),
        _ => ValueView::StrList(children),
    }
}

/// Index `i` holds the first route of `routes` serving method `m`.
pub open spec fn is_first_route(routes: Seq<RouteView>, m: Seq<char>, i: int) -> bool {
    &&& 0 <= i < routes.len()
    &&& routes[i].methods.contains(m)
    &&& forall|j: int| 0 <= j < i ==> !routes[j].methods.contains(m)
}

/// The first route serving method `m`, when one does.
pub open spec fn route_for(routes: Seq<RouteView>, m: Seq<char>) -> Option<int> {
    if exists|i: int| is_first_route(routes, m, i) {
        Some(choose|i: int| is_first_route(routes, m, i))
    } else {
        None
    }
}

/// Two first-route indices agree.
pub proof fn lemma_first_route_unique(routes: Seq<RouteView>, m: Seq<char>, i1: int, i2: int)
    requires
        is_first_route(routes, m, i1),
        is_first_route(routes, m, i2),
    ensures
        i1 == i2,
{
}

/// Error text of a `MethodNotFound` answer.
pub open spec fn text_method_not_found() -> Seq<char> {
    "method not found"@
}

/// Error text of an `InvalidRequest` answer.
pub open spec fn text_invalid_request() -> Seq<char> {
    "invalid request"@
}

/// Error text of a `PermissionDenied` answer.
pub open spec fn text_permission_denied() -> Seq<char> {
    "permission denied"@
}

/// The two implicit methods every virtual directory answers.
pub open spec fn dir_ls_methods() -> Seq<MetaMethodView> {
    seq![
        (MetaMethodView {
            name: "dir"@,
            flags: crate::metamethod::FLAG_NONE,
            access: AccessLevel::Browse,
            param: Seq::empty(),
            result: Seq::empty(),
            description: Seq::empty(),
        }),
        (MetaMethodView {
            name: "ls"@,
            flags: crate::metamethod::FLAG_NONE,
            access: AccessLevel::Browse,
            param: Seq::empty(),
            result: Seq::empty(),
            description: Seq::empty(),
        }),
    ]
}

/// What the core does with an inbound request.
pub enum RequestAction {
    /// Answer with this response.
    Reply(Message),
    /// Hand the rewritten request to the route's handler.
    Run { mount: usize, route: usize, message: Message },
    /// Hand the rewritten request to the dynamic node's handler.
    RunDynamic { mount: usize, message: Message },
    /// Ask the dynamic node's method getter first, then decide.
    AskMethods { mount: usize, message: Message },
    /// Drop the request: it carries no request id to answer under.
    Ignore,
}

/// Mathematical image of a `RequestAction`.
pub enum RequestActionView {
    Reply(MessageView),
    Run { mount: int, route: int, message: MessageView },
    RunDynamic { mount: int, message: MessageView },
    AskMethods { mount: int, message: MessageView },
    Ignore,
}

impl View for RequestAction {
    type V = RequestActionView;

    open spec fn view(&self) -> RequestActionView {
        match self {
            RequestAction::Reply(m) => RequestActionView::Reply(m@),
            RequestAction::Run { mount, route, message } => RequestActionView::Run {
                mount: *mount as int,
                route: *route as int,
                message: message@,
            },
            RequestAction::RunDynamic { mount, message } => RequestActionView::RunDynamic {
                mount: *mount as int,
                message: message@,
            },
            RequestAction::AskMethods { mount, message } => RequestActionView::AskMethods {
                mount: *mount as int,
                message: message@,
            },
            RequestAction::Ignore => RequestActionView::Ignore,
        }
    }
}

/// The index of the best mount for `path`.
pub open spec fn best_mount_idx(ms: MountsView, path: Seq<char>) -> int {
    choose|i: int| is_best_mount(ms, path, i)
}

/// Two best-mount indices agree.
pub proof fn lemma_best_mount_unique(ms: MountsView, path: Seq<char>, i1: int, i2: int)
    requires
        is_best_mount(ms, path, i1),
        is_best_mount(ms, path, i2),
    ensures
        i1 == i2,
{
}

/// How a request is served once the best mount for it is fixed.
pub open spec fn mount_action(ms: MountsView, i: int, rq: MessageView) -> RequestActionView
    recommends
        0 <= i < ms.len(),
{
    let method = rq.method_or_empty();
    let sub = mount_rest(ms[i].0, rq.path_or_empty());
    let rq2 = with_path(rq, sub);
    match ms[i].1 {
        ClientNodeView::Constant { methods, values } => if sub.len() != 0 {
            RequestActionView::Reply(
                error_response(rq, ErrorCode::MethodNotFound, text_method_not_found()),
            )
        } else if method == "dir"@ {
            RequestActionView::Reply(ok_response(rq, dir_value(methods, rq.param)))
        } else if method == "ls"@ {
            RequestActionView::Reply(ok_response(rq, ls_value(Seq::empty(), rq.param)))
        } else if has_method(methods, method) {
            RequestActionView::Reply(ok_response(rq, value_for(values, method)))
        } else {
            RequestActionView::Reply(
                error_response(rq, ErrorCode::MethodNotFound, text_method_not_found()),
            )
        },
        ClientNodeView::Fixed { methods, routes } => if sub.len() != 0 {
            RequestActionView::Reply(
                error_response(rq, ErrorCode::MethodNotFound, text_method_not_found()),
            )
        } else if method == "dir"@ {
            RequestActionView::Reply(ok_response(rq, dir_value(methods, rq.param)))
        } else if method == "ls"@ {
            RequestActionView::Reply(ok_response(rq, ls_value(Seq::empty(), rq.param)))
        } else if !has_method(methods, method) {
            RequestActionView::Reply(
                error_response(rq, ErrorCode::MethodNotFound, text_method_not_found()),
            )
        } else {
            match rq.access_level {
                None => RequestActionView::Reply(
                    error_response(rq, ErrorCode::InvalidRequest, text_invalid_request()),
                ),
                Some(level) => if level.rank() < method_named(methods, method).access.rank() {
                    RequestActionView::Reply(
                        error_response(rq, ErrorCode::PermissionDenied, text_permission_denied()),
                    )
                } else {
                    match route_for(routes, method) {
                        Some(ri) => RequestActionView::Run { mount: i, route: ri, message: rq2 },
                        None => RequestActionView::Reply(
                            error_response(rq, ErrorCode::MethodNotFound, text_method_not_found()),
                        ),
                    }
                },
            }
        },
        ClientNodeView::Dynamic => RequestActionView::AskMethods { mount: i, message: rq2 },
    }
}

/// What the core does with the inbound request `rq` against the mount
/// list `ms`: answer `ls` with the immediate child mounts wherever any
/// lie below the path, serve the request from the mounted node it
/// falls under, serve the implicit `dir` of a directory above the
/// mounts, or answer that nothing lives at its path. A request without
/// a request id cannot be answered and is ignored.
pub open spec fn request_action(ms: MountsView, rq: MessageView) -> RequestActionView {
    if rq.request_id is None {
        RequestActionView::Ignore
    } else {
        let path = rq.path_or_empty();
        let method = rq.method_or_empty();
        if method == "ls"@ && has_child_mount(ms, path) {
            RequestActionView::Reply(ok_response(rq, ls_value(children_list(ms, path), rq.param)))
        } else if has_mount_prefix(ms, path) {
            mount_action(ms, best_mount_idx(ms, path), rq)
        } else if method == "dir"@ && has_child_mount(ms, path) {
            RequestActionView::Reply(ok_response(rq, dir_value(dir_ls_methods(), rq.param)))
        } else {
            RequestActionView::Reply(
                error_response(rq, ErrorCode::MethodNotFound, text_method_not_found()),
            )
        }
    }
}

/// How a dynamic node serves the request `rq` (already rewritten to its
/// sub-path) once its method getter has answered: no list means nothing
/// lives at the sub-path; a method that is neither `dir` nor in the
/// fresh list is unknown; a request for a known method without an
/// access level is invalid; `dir` is answered from the fresh list; any
/// other known method must be within the access level, and then goes
/// to the handler.
pub open spec fn dynamic_action(
    mount: int,
    rq: MessageView,
    methods: Option<Seq<MetaMethodView>>,
) -> RequestActionView {
    if rq.request_id is None {
        RequestActionView::Ignore
    } else {
        dynamic_action_with_id(mount, rq, methods)
    }
}

/// `dynamic_action` for a request that carries a request id.
pub open spec fn dynamic_action_with_id(
    mount: int,
    rq: MessageView,
    methods: Option<Seq<MetaMethodView>>,
) -> RequestActionView {
    match methods {
        None => RequestActionView::Reply(
            error_response(rq, ErrorCode::MethodNotFound, text_method_not_found()),
        ),
        Some(list) => {
            let method = rq.method_or_empty();
            if method != "dir"@ && !has_method(list, method) {
                RequestActionView::Reply(
                    error_response(rq, ErrorCode::MethodNotFound, text_method_not_found()),
                )
            } else {
                match rq.access_level {
                    None => RequestActionView::Reply(
                        error_response(rq, ErrorCode::InvalidRequest, text_invalid_request()),
                    ),
                    Some(level) => if method == "dir"@ {
                        RequestActionView::Reply(ok_response(rq, dir_value(list, rq.param)))
                    } else if level.rank() < method_named(list, method).access.rank() {
                        RequestActionView::Reply(
                            error_response(rq, ErrorCode::PermissionDenied, text_permission_denied()),
                        )
                    } else {
                        RequestActionView::RunDynamic { mount, message: rq }
                    },
                }
            }
        },
    }
}

/// Looks up the value a constant node answers for `name`.
fn lookup_value(values: &Vec<(String, Value)>, name: &str) -> (r: Value)
    ensures
        r@ == value_for(values_view(values@), name@),
{
    let ghost vs = values_view(values@);
    let n = values.len();
    assert(vs.skip(0) =~= vs);
    for i in 0..n
        invariant
            n == values.len(),
            vs == values_view(values@),
            value_for(vs, name@) == value_for(vs.skip(i as int), name@),
    {
        assert(vs[i as int] == (values@[i as int].0@, values@[i as int].1@));
        assert(vs.skip(i as int)[0] == vs[i as int]);
        if str_eq(values[i].0.as_str(), name) {
            return values[i].1.clone();
        }
        assert(vs.skip(i as int).drop_first() =~= vs.skip(i as int + 1));
    }
    assert(vs.skip(n as int).len() == 0);
    Value::Null
}

/// Builds what `dir` answers over `methods`.
fn dir_result(methods: &Vec<MetaMethod>, param: &Option<Value>) -> (r: Value)
    ensures
        r@ == dir_value(methods.deep_view(), param.deep_view()),
{
    match param {
        Some(Value::Str(s)) => match crate::metamethod::find_method(methods, s.as_str()) {
            Some(m) => Value::Method(m.clone()),
            None => Value::Null,
        },
        _ => Value::MethodList(crate::value::clone_methods(methods)),
    }
}

/// Builds what `ls` answers over the child listing `children`.
fn ls_result(children: Vec<String>, param: &Option<Value>) -> (r: Value)
    ensures
        r@ == ls_value(children.deep_view(), param.deep_view()),
{
    match param {
        Some(Value::Str(s)) => Value::Bool(contains_string(&children, s.as_str())),
        _ => Value::StrList(children),
    }
}

/// Finds the first route serving `method`.
fn find_route(routes: &Vec<Route>, method: &str) -> (r: Option<usize>)
    ensures
        match r {
            Some(ri) => route_for(routes.deep_view(), method@) == Some(ri as int),
            None => route_for(routes.deep_view(), method@) is None,
        },
{
    let ghost rs = routes.deep_view();
    let n = routes.len();
    for i in 0..n
        invariant
            n == routes.len(),
            rs == routes.deep_view(),
            forall|j: int| 0 <= j < i ==> !rs[j].methods.contains(method@),
    {
        assert(routes[i as int]@ == rs[i as int]);
        if contains_string(&routes[i].methods, method) {
            proof {
                assert(is_first_route(rs, method@, i as int));
                lemma_first_route_unique(
                    rs,
                    method@,
                    i as int,
                    choose|k: int| is_first_route(rs, method@, k),
                );
            }
            return Some(i);
        }
    }
    proof {
        if exists|k: int| is_first_route(rs, method@, k) {
            let k = choose|k: int| is_first_route(rs, method@, k);
            assert(!rs[k].methods.contains(method@));
        }
    }
    None
}

/// Whether some mount lies strictly below `dir`.
fn has_any_child(mounts: &Vec<Mount>, dir: &str) -> (r: bool)
    ensures
        r == has_child_mount(mounts.deep_view(), dir@),
{
    let ghost ms = mounts.deep_view();
    let n = mounts.len();
    let dlen = dir.unicode_len();
    for i in 0..n
        invariant
            n == mounts.len(),
            ms == mounts.deep_view(),
            dlen == dir@.len(),
            forall|j: int| 0 <= j < i ==> !strictly_under(ms[j].0, dir@),
    {
        assert(mounts[i as int].0@ == ms[i as int].0);
        if is_mount_prefix(dir, mounts[i].0.as_str()) && mounts[i].0.unicode_len() > dlen {
            assert(strictly_under(ms[i as int].0, dir@));
            return true;
        }
    }
    false
}

/// Builds the two implicit directory methods.
fn dir_ls_method_vec() -> (r: Vec<MetaMethod>)
    ensures
        r.deep_view() == dir_ls_methods(),
{
    let mut out: Vec<MetaMethod> = Vec::new();
    out.push(MetaMethod::plain(String::from_str("dir"), AccessLevel::Browse));
    out.push(MetaMethod::plain(String::from_str("ls"), AccessLevel::Browse));
    assert(out.deep_view() =~= dir_ls_methods());
    out
}

/// The `MethodNotFound` reply to `rq`.
fn reply_method_not_found(rq: &Message) -> (r: RequestAction)
    requires
        rq.request_id is Some,
    ensures
        r@ == RequestActionView::Reply(
            error_response(rq@, ErrorCode::MethodNotFound, text_method_not_found()),
        ),
{
    RequestAction::Reply(
        rq.response_with_error(ErrorCode::MethodNotFound, String::from_str("method not found")),
    )
}

/// The `InvalidRequest` reply to `rq`.
fn reply_invalid_request(rq: &Message) -> (r: RequestAction)
    requires
        rq.request_id is Some,
    ensures
        r@ == RequestActionView::Reply(
            error_response(rq@, ErrorCode::InvalidRequest, text_invalid_request()),
        ),
{
    RequestAction::Reply(
        rq.response_with_error(ErrorCode::InvalidRequest, String::from_str("invalid request")),
    )
}

/// The `PermissionDenied` reply to `rq`.
fn reply_permission_denied(rq: &Message) -> (r: RequestAction)
    requires
        rq.request_id is Some,
    ensures
        r@ == RequestActionView::Reply(
            error_response(rq@, ErrorCode::PermissionDenied, text_permission_denied()),
        ),
{
    RequestAction::Reply(
        rq.response_with_error(ErrorCode::PermissionDenied, String::from_str("permission denied")),
    )
}

/// Decides how the inbound request `rq` is served against the mount
/// list, as `request_action` states it.
pub fn process_request(mounts: &Vec<Mount>, rq: &Message) -> (r: RequestAction)
    requires
        rq@.is_request(),
    ensures
        r@ == request_action(mounts.deep_view(), rq@),
{
    let ghost ms = mounts.deep_view();
    if rq.request_id.is_none() {
        return RequestAction::Ignore;
    }
    proof {
        reveal_strlit("");
        assert(""@ =~= Seq::<char>::empty());
    }
    let path: &str = match &rq.path {
        Some(p) => p.as_str(),
        None => "",
    };
    let method: &str = match &rq.method {
        Some(m) => m.as_str(),
        None => "",
    };
    assert(path@ == rq@.path_or_empty());
    assert(method@ == rq@.method_or_empty());
    if str_eq(method, "ls") && has_any_child(mounts, path) {
        return RequestAction::Reply(
            rq.response_with_result(ls_result(direct_children(mounts, path), &rq.param)),
        );
    }
    match find_longest_prefix(mounts, path) {
        Some((i, rest)) => {
            proof {
                assert(is_best_mount(ms, path@, i as int));
                lemma_best_mount_unique(ms, path@, i as int, best_mount_idx(ms, path@));
            }
            let sub_empty = rest.as_str().is_empty();
            let rq2 = rq.cloned_with_path(rest);
            assert(mounts[i as int].deep_view() == ms[i as int]);
            match &mounts[i].1 {
                ClientNode::Constant { methods, values } => {
                    if !sub_empty {
                        reply_method_not_found(rq)
                    } else if str_eq(method, "dir") {
                        RequestAction::Reply(
                            rq.response_with_result(dir_result(methods, &rq.param)),
                        )
                    } else if str_eq(method, "ls") {
                        let none: Vec<String> = Vec::new();
                        assert(none.deep_view() =~= Seq::<Seq<char>>::empty());
                        RequestAction::Reply(
                            rq.response_with_result(ls_result(none, &rq.param)),
                        )
                    } else {
                        match crate::metamethod::find_method(methods, method) {
                            Some(_) => RequestAction::Reply(
                                rq.response_with_result(lookup_value(values, method)),
                            ),
                            None => reply_method_not_found(rq),
                        }
                    }
                },
                ClientNode::Fixed { methods, routes } => {
                    if !sub_empty {
                        reply_method_not_found(rq)
                    } else if str_eq(method, "dir") {
                        RequestAction::Reply(
                            rq.response_with_result(dir_result(methods, &rq.param)),
                        )
                    } else if str_eq(method, "ls") {
                        let none: Vec<String> = Vec::new();
                        assert(none.deep_view() =~= Seq::<Seq<char>>::empty());
                        RequestAction::Reply(
                            rq.response_with_result(ls_result(none, &rq.param)),
                        )
                    } else {
                        match crate::metamethod::find_method(methods, method) {
                            None => reply_method_not_found(rq),
                            Some(m) => match rq.access_level {
                                None => reply_invalid_request(rq),
                                Some(level) => if !level.satisfies(m.access) {
                                    reply_permission_denied(rq)
                                } else {
                                    match find_route(routes, method) {
                                        Some(ri) => RequestAction::Run {
                                            mount: i,
                                            route: ri,
                                            message: rq2,
                                        },
                                        None => reply_method_not_found(rq),
                                    }
                                },
                            },
                        }
                    }
                },
                ClientNode::Dynamic => RequestAction::AskMethods { mount: i, message: rq2 },
            }
        },
        None => {
            if str_eq(method, "dir") && has_any_child(mounts, path) {
                RequestAction::Reply(
                    rq.response_with_result(dir_result(&dir_ls_method_vec(), &rq.param)),
                )
            } else {
                reply_method_not_found(rq)
            }
        },
    }
}

/// Decides how a dynamic node serves `rq` once its method getter has
/// answered, as `dynamic_action` states it.
pub fn process_dynamic_request(mount: usize, rq: Message, methods: Option<Vec<MetaMethod>>) -> (r:
    RequestAction)
    ensures
        r@ == dynamic_action(mount as int, rq@, methods.deep_view()),
{
    if rq.request_id.is_none() {
        return RequestAction::Ignore;
    }
    proof {
        reveal_strlit("");
        assert(""@ =~= Seq::<char>::empty());
    }
    match methods {
        None => reply_method_not_found(&rq),
        Some(list) => {
            let method: &str = match &rq.method {
                Some(m) => m.as_str(),
                None => "",
            };
            assert(method@ == rq@.method_or_empty());
            let is_dir = str_eq(method, "dir");
            let known = crate::metamethod::find_method(&list, method);
            if !is_dir && known.is_none() {
                reply_method_not_found(&rq)
            } else {
                match rq.access_level {
                    None => reply_invalid_request(&rq),
                    Some(level) => {
                        if is_dir {
                            RequestAction::Reply(
                                rq.response_with_result(dir_result(&list, &rq.param)),
                            )
                        } else {
                            let m = known.unwrap();
                            if !level.satisfies(m.access) {
                                reply_permission_denied(&rq)
                            } else {
                                RequestAction::RunDynamic { mount, message: rq }
                            }
                        }
                    },
                }
            }
        },
    }
}

} // verus!
