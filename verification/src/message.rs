//! The decoded form of an RPC message.
//!
//! A message is either a request, the response that answers it, or an
//! unsolicited signal. The transport owns the wire form; the core works
//! on this decoded form only.

use vstd::prelude::*;
use crate::value::Value;
use crate::value::ValueView;
use crate::metamethod::AccessLevel;

verus! {

/// The three message kinds.
#[derive(Clone, Copy, Debug, PartialEq, Eq, Structural)]
pub enum MsgKind {
    Request,
    Response,
    Signal,
}

/// RPC error codes the core produces or passes through.
#[derive(Clone, Copy, Debug, PartialEq, Eq, Structural)]
pub enum ErrorCode {
    MethodNotFound,
    InvalidRequest,
    PermissionDenied,
    MethodCallException,
    /// Any other code, carried through unchanged.
    Other(i32),
}

/// An RPC error: a code and a human-readable message.
#[derive(Debug, PartialEq)]
pub struct RpcError {
    pub code: ErrorCode,
    pub message: String,
}

/// Mathematical image of an `RpcError`.
pub struct RpcErrorView {
    pub code: ErrorCode,
    pub message: Seq<char>,
}

impl View for RpcError {
    type V = RpcErrorView;

    open spec fn view(&self) -> RpcErrorView {
        RpcErrorView { code: self.code, message: self.message@ }
    }
}

impl DeepView for RpcError {
    type V = RpcErrorView;

    open spec fn deep_view(&self) -> RpcErrorView {
        self.view()
    }
}

impl Clone for RpcError {
    fn clone(&self) -> (r: Self)
        ensures
            r@ == self@,
    {
        RpcError { code: self.code, message: self.message.clone() }
    }
}

impl RpcError {
    /// A new error value.
    pub fn new(code: ErrorCode, message: String) -> (r: RpcError)
        ensures
            r@ == (RpcErrorView { code, message: message@ }),
    {
        RpcError { code, message }
    }
}

/// A decoded RPC message.
#[derive(Debug, PartialEq)]
pub struct Message {
    pub kind: MsgKind,
    pub path: Option<String>,
    pub method: Option<String>,
    pub request_id: Option<i64>,
    /// Routing identifiers of the caller, carried through unchanged
    /// from a request into its response.
    pub caller_ids: Vec<i64>,
    pub access_level: Option<AccessLevel>,
    pub param: Option<Value>,
    pub result: Option<Value>,
    pub error: Option<RpcError>,
}

/// Mathematical image of a `Message`.
pub struct MessageView {
    pub kind: MsgKind,
    pub path: Option<Seq<char>>,
    pub method: Option<Seq<char>>,
    pub request_id: Option<i64>,
    pub caller_ids: Seq<i64>,
    pub access_level: Option<AccessLevel>,
    pub param: Option<ValueView>,
    pub result: Option<ValueView>,
    pub error: Option<RpcErrorView>,
}

impl View for Message {
    type V = MessageView;

    open spec fn view(&self) -> MessageView {
        MessageView {
            kind: self.kind,
            path: self.path.deep_view(),
            method: self.method.deep_view(),
            request_id: self.request_id,
            caller_ids: self.caller_ids@,
            access_level: self.access_level,
            param: self.param.deep_view(),
            result: self.result.deep_view(),
            error: self.error.deep_view(),
        }
    }
}

impl DeepView for Message {
    type V = MessageView;

    open spec fn deep_view(&self) -> MessageView {
        self.view()
    }
}

impl MessageView {
    /// The message is a request.
    pub open spec fn is_request(self) -> bool {
        self.kind == MsgKind::Request
    }

    /// The message is a response.
    pub open spec fn is_response(self) -> bool {
        self.kind == MsgKind::Response
    }

    /// The message is a signal.
    pub open spec fn is_signal(self) -> bool {
        self.kind == MsgKind::Signal
    }

    /// The path of the message, with an absent path read as empty.
    pub open spec fn path_or_empty(self) -> Seq<char> {
        match self.path {
            Some(p) => p,
            None => Seq::empty(),
        }
    }

    /// The method of the message, with an absent method read as empty.
    pub open spec fn method_or_empty(self) -> Seq<char> {
        match self.method {
            Some(m) => m,
            None => Seq::empty(),
        }
    }
}

/// The empty response frame that answers the request `rq`: same request
/// id and caller ids, no payload yet.
pub open spec fn response_meta(rq: MessageView) -> MessageView {
    MessageView {
        kind: MsgKind::Response,
        path: None,
        method: None,
        request_id: rq.request_id,
        caller_ids: rq.caller_ids,
        access_level: None,
        param: None,
        result: None,
        error: None,
    }
}

/// The response that answers `rq` with the result `v`.
pub open spec fn ok_response(rq: MessageView, v: ValueView) -> MessageView {
    MessageView { result: Some(v), ..response_meta(rq) }
}

/// The response that answers `rq` with an error of code `code`.
pub open spec fn error_response(rq: MessageView, code: ErrorCode, message: Seq<char>) -> MessageView {
    MessageView {
        error: Some(RpcErrorView { code, message }),
        ..response_meta(rq)
    }
}

/// The same message with its path replaced.
pub open spec fn with_path(m: MessageView, p: Seq<char>) -> MessageView {
    MessageView { path: Some(p), ..m }
}

/// Copies a vector of caller ids.
fn clone_ids(l: &Vec<i64>) -> (r: Vec<i64>)
    ensures
        r@ == l@,
{
    let mut out: Vec<i64> = Vec::new();
    assert(out@ =~= l@.subrange(0, 0));
    for i in 0..l.len()
        invariant
            out@ =~= l@.subrange(0, i as int),
    {
        out.push(l[i]);
        assert(out@ =~= l@.subrange(0, i as int + 1));
    }
    assert(l@.subrange(0, l.len() as int) =~= l@);
    out
}

/// Copies an optional string.
fn clone_opt_string(o: &Option<String>) -> (r: Option<String>)
    ensures
        r.deep_view() == o.deep_view(),
{
    match o {
        Some(s) => Some(s.clone()),
        None => None,
    }
}

impl Clone for Message {
    fn clone(&self) -> (r: Self)
        ensures
            r@ == self@,
    {
        Message {
            kind: self.kind,
            path: clone_opt_string(&self.path),
            method: clone_opt_string(&self.method),
            request_id: self.request_id,
            caller_ids: clone_ids(&self.caller_ids),
            access_level: self.access_level,
            param: match &self.param {
                Some(v) => Some(v.clone()),
                None => None,
            },
            result: match &self.result {
                Some(v) => Some(v.clone()),
                None => None,
            },
            error: match &self.error {
                Some(e) => Some(e.clone()),
                None => None,
            },
        }
    }
}

impl Message {
    /// A new request for `method` on `path`, under the given request id.
    pub fn new_request(path: String, method: String, param: Option<Value>, request_id: i64) -> (r:
        Message)
        ensures
            r@ == (MessageView {
                kind: MsgKind::Request,
                path: Some(path@),
                method: Some(method@),
                request_id: Some(request_id),
                caller_ids: Seq::empty(),
                access_level: None,
                param: param.deep_view(),
                result: None,
                error: None,
            }),
    {
        Message {
            kind: MsgKind::Request,
            path: Some(path),
            method: Some(method),
            request_id: Some(request_id),
            caller_ids: Vec::new(),
            access_level: None,
            param,
            result: None,
            error: None,
        }
    }

    /// A new signal named `method` on `path`.
    pub fn new_signal(path: String, method: String, param: Option<Value>) -> (r: Message)
        ensures
            r@ == (MessageView {
                kind: MsgKind::Signal,
                path: Some(path@),
                method: Some(method@),
                request_id: None,
                caller_ids: Seq::empty(),
                access_level: None,
                param: param.deep_view(),
                result: None,
                error: None,
            }),
    {
        Message {
            kind: MsgKind::Signal,
            path: Some(path),
            method: Some(method),
            request_id: None,
            caller_ids: Vec::new(),
            access_level: None,
            param,
            result: None,
            error: None,
        }
    }

    /// The empty response that answers this request, or `None` when the
    /// request carries no request id and so cannot be answered.
    pub fn prepare_response(&self) -> (r: Option<Message>)
        ensures
            match r {
                Some(m) => self.request_id is Some && m@ == response_meta(self@),
                None => self.request_id is None,
            },
    {
        match self.request_id {
            Some(id) => Some(
                Message {
                    kind: MsgKind::Response,
                    path: None,
                    method: None,
                    request_id: Some(id),
                    caller_ids: clone_ids(&self.caller_ids),
                    access_level: None,
                    param: None,
                    result: None,
                    error: None,
                },
            ),
            None => None,
        }
    }

    /// The response that answers this request with the result `v`.
    pub fn response_with_result(&self, v: Value) -> (r: Message)
        requires
            self.request_id is Some,
        ensures
            r@ == ok_response(self@, v@),
    {
        let mut resp = self.prepare_response().unwrap();
        resp.result = Some(v);
        resp
    }

    /// A copy of this message with its path replaced: the mount-local
    /// remainder of the path, ahead of node dispatch.
    pub fn cloned_with_path(&self, p: String) -> (r: Message)
        ensures
            r@ == with_path(self@, p@),
    {
        let mut c = self.clone();
        c.path = Some(p);
        c
    }

    /// The response that answers this request with an error.
    pub fn response_with_error(&self, code: ErrorCode, message: String) -> (r: Message)
        requires
            self.request_id is Some,
        ensures
            r@ == error_response(self@, code, message@),
    {
        let mut resp = self.prepare_response().unwrap();
        resp.error = Some(RpcError { code, message });
        resp
    }
}

} // verus!
