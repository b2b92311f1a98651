//! The built-in `.app` and `.device` nodes and their routes.
//!
//! Every client mounts `.app`, which serves the mandatory introspection
//! getters; a device-flavored client mounts `.device` beside it.

use vstd::prelude::*;
use vstd::string::StringExecFns;
use crate::clientnode::Route;
use crate::clientnode::RouteTarget;
use crate::message::Message;
use crate::message::ok_response;
use crate::metamethod::AccessLevel;
use crate::metamethod::MetaMethod;
use crate::value::Value;
use crate::value::ValueView;

verus! {

/// The SHV major version the `.app` node reports.
pub const SHV_VERSION_MAJOR: i64 = 3;

/// The SHV minor version the `.app` node reports.
pub const SHV_VERSION_MINOR: i64 = 0;

/// What the application publishes on the `.app` node.
pub struct DotAppNode {
    pub app_name: String,
}

/// Mathematical image of a `DotAppNode`.
pub struct DotAppNodeView {
    pub app_name: Seq<char>,
}

impl View for DotAppNode {
    type V = DotAppNodeView;

    open spec fn view(&self) -> DotAppNodeView {
        DotAppNodeView { app_name: self.app_name@ }
    }
}

impl DotAppNode {
    /// A new `.app` node publishing the given application name.
    pub fn new(app_name: String) -> (r: DotAppNode)
        ensures
            r@.app_name == app_name@,
    {
        DotAppNode { app_name }
    }
}

/// What a device publishes on the `.device` node.
pub struct DotDeviceNode {
    pub device_name: String,
    pub version: String,
    pub serial_number: Option<String>,
}

/// Mathematical image of a `DotDeviceNode`.
pub struct DotDeviceNodeView {
    pub device_name: Seq<char>,
    pub version: Seq<char>,
    pub serial_number: Option<Seq<char>>,
}

impl View for DotDeviceNode {
    type V = DotDeviceNodeView;

    open spec fn view(&self) -> DotDeviceNodeView {
        DotDeviceNodeView {
            device_name: self.device_name@,
            version: self.version@,
            serial_number: self.serial_number.deep_view(),
        }
    }
}

impl DotDeviceNode {
    /// A new `.device` node publishing the given identity.
    pub fn new(device_name: String, version: String, serial_number: Option<String>) -> (r:
        DotDeviceNode)
        ensures
            r@.device_name == device_name@,
            r@.version == version@,
            r@.serial_number == serial_number.deep_view(),
    {
        DotDeviceNode { device_name, version, serial_number }
    }
}

/// The value the `.app` node answers for `method`, when it serves it.
pub open spec fn app_node_value(node: DotAppNodeView, method: Seq<char>) -> Option<ValueView> {
    if method == "shvVersionMajor"@ {
        Some(ValueView::Int(SHV_VERSION_MAJOR as int))
    } else if method == "shvVersionMinor"@ {
        Some(ValueView::Int(SHV_VERSION_MINOR as int))
    } else if method == "name"@ {
        Some(ValueView::Str(node.app_name))
    } else if method == "ping"@ {
        Some(ValueView::Null)
    } else {
        None
    }
}

/// The value the `.device` node answers for `method`, when it serves it.
pub open spec fn app_device_node_value(node: DotDeviceNodeView, method: Seq<char>) -> Option<
    ValueView,
> {
    if method == "name"@ {
        Some(ValueView::Str(node.device_name))
    } else if method == "version"@ {
        Some(ValueView::Str(node.version))
    } else if method == "serialNumber"@ {
        match node.serial_number {
            None => Some(ValueView::Null),
            Some(sn) => Some(ValueView::Str(sn)),
        }
    } else {
        None
    }
}

/// Serves a request addressed to the `.app` node: a known getter on the
/// node's own path (the empty sub-path) is answered from the node, and
/// anything else goes unanswered.
pub fn app_node_process_request(node: &DotAppNode, request: &Message) -> (r: Option<Message>)
    ensures
        match r {
            Some(resp) => request@.request_id is Some && request@.path_or_empty().len() == 0
                && app_node_value(node@, request@.method_or_empty()) is Some && resp@
                == ok_response(
                request@,
                app_node_value(node@, request@.method_or_empty()).unwrap(),
            ),
            None => request@.request_id is None || request@.path_or_empty().len() != 0
                || app_node_value(node@, request@.method_or_empty()) is None,
        },
{
    if request.request_id.is_none() {
        return None;
    }
    proof {
        reveal_strlit("");
        assert(""@ =~= Seq::<char>::empty());
    }
    let path: &str = match &request.path {
        Some(p) => p.as_str(),
        None => "",
    };
    if !path.is_empty() {
        return None;
    }
    let method: &str = match &request.method {
        Some(m) => m.as_str(),
        None => "",
    };
    assert(method@ == request@.method_or_empty());
    let value: Option<Value> = if crate::subscriptions::str_eq(method, "shvVersionMajor") {
        Some(Value::Int(SHV_VERSION_MAJOR))
    } else if crate::subscriptions::str_eq(method, "shvVersionMinor") {
        Some(Value::Int(SHV_VERSION_MINOR))
    } else if crate::subscriptions::str_eq(method, "name") {
        Some(Value::Str(node.app_name.clone()))
    } else if crate::subscriptions::str_eq(method, "ping") {
        Some(Value::Null)
    } else {
        None
    };
    match value {
        Some(v) => Some(request.response_with_result(v)),
        None => None,
    }
}

/// Serves a request addressed to the `.device` node, as
/// `app_node_process_request` does for `.app`.
pub fn app_device_node_process_request(node: &DotDeviceNode, request: &Message) -> (r: Option<
    Message,
>)
    ensures
        match r {
            Some(resp) => request@.request_id is Some && request@.path_or_empty().len() == 0
                && app_device_node_value(node@, request@.method_or_empty()) is Some && resp@
                == ok_response(
                request@,
                app_device_node_value(node@, request@.method_or_empty()).unwrap(),
            ),
            None => request@.request_id is None || request@.path_or_empty().len() != 0
                || app_device_node_value(node@, request@.method_or_empty()) is None,
        },
{
    if request.request_id.is_none() {
        return None;
    }
    proof {
        reveal_strlit("");
        assert(""@ =~= Seq::<char>::empty());
    }
    let path: &str = match &request.path {
        Some(p) => p.as_str(),
        None => "",
    };
    if !path.is_empty() {
        return None;
    }
    let method: &str = match &request.method {
        Some(m) => m.as_str(),
        None => "",
    };
    assert(method@ == request@.method_or_empty());
    let value: Option<Value> = if crate::subscriptions::str_eq(method, "name") {
        Some(Value::Str(node.device_name.clone()))
    } else if crate::subscriptions::str_eq(method, "version") {
        Some(Value::Str(node.version.clone()))
    } else if crate::subscriptions::str_eq(method, "serialNumber") {
        match &node.serial_number {
            None => Some(Value::Null),
            Some(sn) => Some(Value::Str(sn.clone())),
        }
    } else {
        None
    };
    match value {
        Some(v) => Some(request.response_with_result(v)),
        None => None,
    }
}

/// The method names the `.app` node serves besides `dir` and `ls`.
pub open spec fn app_node_method_names() -> Seq<Seq<char>> {
    seq!["shvVersionMajor"@, "shvVersionMinor"@, "name"@, "ping"@]
}

/// The method names the `.device` node serves besides `dir` and `ls`.
pub open spec fn app_device_node_method_names() -> Seq<Seq<char>> {
    seq!["name"@, "version"@, "serialNumber"@]
}

/// The descriptors of the `.app` node's methods: the two implicit
/// directory methods, then its four Browse-level getters.
pub fn app_node_methods() -> (r: Vec<MetaMethod>)
    ensures
        crate::metamethod::method_names(r.deep_view()) == seq!["dir"@, "ls"@].add(
            app_node_method_names(),
        ),
        forall|i: int| 0 <= i < r.deep_view().len() ==> r.deep_view()[i].access
            == AccessLevel::Browse,
{
    let mut out: Vec<MetaMethod> = Vec::new();
    out.push(MetaMethod::plain(String::from_str("dir"), AccessLevel::Browse));
    out.push(MetaMethod::plain(String::from_str("ls"), AccessLevel::Browse));
    out.push(MetaMethod::getter(String::from_str("shvVersionMajor")));
    out.push(MetaMethod::getter(String::from_str("shvVersionMinor")));
    out.push(MetaMethod::getter(String::from_str("name")));
    out.push(MetaMethod::plain(String::from_str("ping"), AccessLevel::Browse));
    assert(crate::metamethod::method_names(out.deep_view()) =~= seq!["dir"@, "ls"@].add(
        app_node_method_names(),
    ));
    out
}

/// The descriptors of the `.device` node's methods.
pub fn app_device_node_methods() -> (r: Vec<MetaMethod>)
    ensures
        crate::metamethod::method_names(r.deep_view()) == seq!["dir"@, "ls"@].add(
            app_device_node_method_names(),
        ),
        forall|i: int| 0 <= i < r.deep_view().len() ==> r.deep_view()[i].access
            == AccessLevel::Browse,
{
    let mut out: Vec<MetaMethod> = Vec::new();
    out.push(MetaMethod::plain(String::from_str("dir"), AccessLevel::Browse));
    out.push(MetaMethod::plain(String::from_str("ls"), AccessLevel::Browse));
    out.push(MetaMethod::getter(String::from_str("name")));
    out.push(MetaMethod::getter(String::from_str("version")));
    out.push(MetaMethod::getter(String::from_str("serialNumber")));
    assert(crate::metamethod::method_names(out.deep_view()) =~= seq!["dir"@, "ls"@].add(
        app_device_node_method_names(),
    ));
    out
}

/// The value table of the `.app` constant node.
pub fn app_node_values(node: &DotAppNode) -> (r: Vec<(String, Value)>)
    ensures
        forall|m: Seq<char>|
            crate::clientnode::value_for(crate::clientnode::values_view(r@), m)
                == match app_node_value(node@, m) {
                Some(v) => v,
                None => ValueView::Null,
            },
{
    let mut out: Vec<(String, Value)> = Vec::new();
    out.push((String::from_str("shvVersionMajor"), Value::Int(SHV_VERSION_MAJOR)));
    out.push((String::from_str("shvVersionMinor"), Value::Int(SHV_VERSION_MINOR)));
    out.push((String::from_str("name"), Value::Str(node.app_name.clone())));
    out.push((String::from_str("ping"), Value::Null));
    proof {
        let vs = crate::clientnode::values_view(out@);
        assert forall|m: Seq<char>|
            crate::clientnode::value_for(vs, m) == match app_node_value(node@, m) {
                Some(v) => v,
                None => ValueView::Null,
            } by {
            reveal_with_fuel(crate::clientnode::value_for, 6);
            reveal_strlit("shvVersionMajor");
            reveal_strlit("shvVersionMinor");
            reveal_strlit("name");
            reveal_strlit("ping");
            assert(vs[0] == ("shvVersionMajor"@, ValueView::Int(SHV_VERSION_MAJOR as int)));
            assert(vs[1] == ("shvVersionMinor"@, ValueView::Int(SHV_VERSION_MINOR as int)));
            assert(vs[2] == ("name"@, ValueView::Str(node.app_name@)));
            assert(vs[3] == ("ping"@, ValueView::Null));
            assert(vs.drop_first().drop_first().drop_first().drop_first().len() == 0);
            assert(vs.drop_first()[0] == vs[1]);
            assert(vs.drop_first().drop_first()[0] == vs[2]);
            assert(vs.drop_first().drop_first().drop_first()[0] == vs[3]);
        }
    }
    out
}

/// The value table of the `.device` constant node.
pub fn app_device_node_values(node: &DotDeviceNode) -> (r: Vec<(String, Value)>)
    ensures
        forall|m: Seq<char>|
            crate::clientnode::value_for(crate::clientnode::values_view(r@), m)
                == match app_device_node_value(node@, m) {
                Some(v) => v,
                None => ValueView::Null,
            },
{
    let mut out: Vec<(String, Value)> = Vec::new();
    out.push((String::from_str("name"), Value::Str(node.device_name.clone())));
    out.push((String::from_str("version"), Value::Str(node.version.clone())));
    let sn: Value = match &node.serial_number {
        None => Value::Null,
        Some(s) => Value::Str(s.clone()),
    };
    out.push((String::from_str("serialNumber"), sn));
    proof {
        let vs = crate::clientnode::values_view(out@);
        assert forall|m: Seq<char>|
            crate::clientnode::value_for(vs, m) == match app_device_node_value(node@, m) {
                Some(v) => v,
                None => ValueView::Null,
            } by {
            reveal_with_fuel(crate::clientnode::value_for, 5);
            reveal_strlit("name");
            reveal_strlit("version");
            reveal_strlit("serialNumber");
            assert(vs[0] == ("name"@, ValueView::Str(node.device_name@)));
            assert(vs[1] == ("version"@, ValueView::Str(node.version@)));
            assert(vs[2].0 == "serialNumber"@);
            assert(vs.drop_first().drop_first().drop_first().len() == 0);
            assert(vs.drop_first()[0] == vs[1]);
            assert(vs.drop_first().drop_first()[0] == vs[2]);
        }
    }
    out
}

/// The node is the `.app` constant node built from `app`: it declares
/// the implicit directory methods and the four Browse-level getters,
/// and answers each from the application's identity.
pub open spec fn is_dot_app_node(
    n: crate::clientnode::ClientNodeView,
    app: DotAppNodeView,
) -> bool {
    match n {
        crate::clientnode::ClientNodeView::Constant { methods, values } => {
            &&& crate::metamethod::method_names(methods) == seq!["dir"@, "ls"@].add(
                app_node_method_names(),
            )
            &&& forall|i: int| 0 <= i < methods.len() ==> methods[i].access == AccessLevel::Browse
            &&& forall|m: Seq<char>|
                crate::clientnode::value_for(values, m) == match app_node_value(app, m) {
                    Some(v) => v,
                    None => ValueView::Null,
                }
        },
        _ => false,
    }
}

/// The node is the `.device` constant node built from `dev`.
pub open spec fn is_dot_device_node(
    n: crate::clientnode::ClientNodeView,
    dev: DotDeviceNodeView,
) -> bool {
    match n {
        crate::clientnode::ClientNodeView::Constant { methods, values } => {
            &&& crate::metamethod::method_names(methods) == seq!["dir"@, "ls"@].add(
                app_device_node_method_names(),
            )
            &&& forall|i: int| 0 <= i < methods.len() ==> methods[i].access == AccessLevel::Browse
            &&& forall|m: Seq<char>|
                crate::clientnode::value_for(values, m) == match app_device_node_value(dev, m) {
                    Some(v) => v,
                    None => ValueView::Null,
                }
        },
        _ => false,
    }
}

/// The route serving the `.app` node's own methods.
pub fn app_node_routes() -> (r: Vec<Route>)
    ensures
        r.deep_view().len() == 1,
        r.deep_view()[0].methods == app_node_method_names(),
        r.deep_view()[0].target == RouteTarget::AppNode,
{
    let mut names: Vec<String> = Vec::new();
    names.push(String::from_str("shvVersionMajor"));
    names.push(String::from_str("shvVersionMinor"));
    names.push(String::from_str("name"));
    names.push(String::from_str("ping"));
    assert(names.deep_view() =~= app_node_method_names());
    let mut out: Vec<Route> = Vec::new();
    out.push(Route::new(names, RouteTarget::AppNode));
    out
}

/// The route serving the `.device` node's own methods.
pub fn app_device_node_routes() -> (r: Vec<Route>)
    ensures
        r.deep_view().len() == 1,
        r.deep_view()[0].methods == app_device_node_method_names(),
        r.deep_view()[0].target == RouteTarget::DeviceNode,
{
    let mut names: Vec<String> = Vec::new();
    names.push(String::from_str("name"));
    names.push(String::from_str("version"));
    names.push(String::from_str("serialNumber"));
    assert(names.deep_view() =~= app_device_node_method_names());
    let mut out: Vec<Route> = Vec::new();
    out.push(Route::new(names, RouteTarget::DeviceNode));
    out
}

} // verus!
