//! The values the core reads or builds itself.
//!
//! The wire value model is the transport's concern. The core only ever
//! inspects a string argument, and only ever produces the typed results
//! below (introspection listings, child listings, the broker subscription
//! parameter, constant-node values). Anything else travels through the
//! core untouched, as an already-encoded blob.

use vstd::prelude::*;
use crate::metamethod::MetaMethod;
use crate::metamethod::MetaMethodView;

verus! {

/// A parameter or result value, as far as the core distinguishes them.
#[derive(Debug, PartialEq)]
pub enum Value {
    Null,
    Bool(bool),
    Int(i64),
    Str(String),
    /// A list of strings, as the child listing of `ls` returns.
    StrList(Vec<String>),
    /// A list of method descriptors, as `dir` returns.
    MethodList(Vec<MetaMethod>),
    /// A single method descriptor, as `dir` with an argument returns.
    Method(MetaMethod),
    /// A map from string keys to string values, as the broker
    /// subscription parameter is.
    StrMap(Vec<(String, String)>),
    /// A value the core does not inspect, in its encoded form.
    Blob(Vec<u8>),
}

/// Mathematical image of a `Value`.
pub enum ValueView {
    Null,
    Bool(bool),
    Int(int),
    Str(Seq<char>),
    StrList(Seq<Seq<char>>),
    MethodList(Seq<MetaMethodView>),
    Method(MetaMethodView),
    StrMap(Seq<(Seq<char>, Seq<char>)>),
    Blob(Seq<u8>),
}

/// The image of one string-map entry.
pub open spec fn pair_view(p: (String, String)) -> (Seq<char>, Seq<char>) {
    (p.0@, p.1@)
}

impl View for Value {
    type V = ValueView;

    open spec fn view(&self) -> ValueView {
        match self {
            Value::Null => ValueView::Null,
            Value::Bool(b) => ValueView::Bool(*b),
            Value::Int(i) => ValueView::Int(*i as int),
            Value::Str(s) => ValueView::Str(s@),
            Value::StrList(l) => ValueView::StrList(l.deep_view()),
            Value::MethodList(l) => ValueView::MethodList(l.deep_view()),
            Value::Method(m) => ValueView::Method(m@),
            Value::StrMap(m) => ValueView::StrMap(m@.map_values(|p: (String, String)| pair_view(p))),
            Value::Blob(b) => ValueView::Blob(b@),
        }
    }
}

impl DeepView for Value {
    type V = ValueView;

    open spec fn deep_view(&self) -> ValueView {
        self.view()
    }
}

/// Copies a vector of strings.
pub(crate) fn clone_strings(l: &Vec<String>) -> (r: Vec<String>)
    ensures
        r.deep_view() == l.deep_view(),
{
    let mut out: Vec<String> = Vec::new();
    assert(out.deep_view() =~= l.deep_view().subrange(0, 0));
    for i in 0..l.len()
        invariant
            out@.len() == i,
            out.deep_view() =~= l.deep_view().subrange(0, i as int),
    {
        let c = l[i].clone();
        assert(c@ == l@[i as int]@);
        let ghost pre = out@;
        let ghost predv = out.deep_view();
        out.push(c);
        assert forall|j: int| 0 <= j < out@.len() implies out.deep_view()[j] == l.deep_view()
            .subrange(0, i as int + 1)[j] by {
            if j < i as int {
                assert(out@[j] == pre[j]);
                assert(predv[j] == pre[j].deep_view());
                assert(predv[j] == l.deep_view()[j]);
            } else {
                assert(out@[j] == c);
            }
        }
        assert(out.deep_view() =~= l.deep_view().subrange(0, i as int + 1));
    }
    assert(l.deep_view().subrange(0, l.len() as int) =~= l.deep_view());
    out
}

/// Copies a vector of method descriptors.
pub(crate) fn clone_methods(l: &Vec<MetaMethod>) -> (r: Vec<MetaMethod>)
    ensures
        r.deep_view() == l.deep_view(),
{
    let mut out: Vec<MetaMethod> = Vec::new();
    assert(out.deep_view() =~= l.deep_view().subrange(0, 0));
    for i in 0..l.len()
        invariant
            out@.len() == i,
            out.deep_view() =~= l.deep_view().subrange(0, i as int),
    {
        out.push(l[i].clone());
        assert(out.deep_view() =~= l.deep_view().subrange(0, i as int + 1));
    }
    assert(l.deep_view().subrange(0, l.len() as int) =~= l.deep_view());
    out
}

impl Clone for Value {
    fn clone(&self) -> (r: Self)
        ensures
            r@ == self@,
    {
        match self {
            Value::Null => Value::Null,
            Value::Bool(b) => Value::Bool(*b),
            Value::Int(i) => Value::Int(*i),
            Value::Str(s) => Value::Str(s.clone()),
            Value::StrList(l) => Value::StrList(clone_strings(l)),
            Value::MethodList(l) => Value::MethodList(clone_methods(l)),
            Value::Method(m) => Value::Method(m.clone()),
            Value::StrMap(m) => {
                let ghost mv = m@.map_values(|p: (String, String)| pair_view(p));
                let mut out: Vec<(String, String)> = Vec::new();
                assert(out@.map_values(|p: (String, String)| pair_view(p)) =~= mv.subrange(0, 0));
                for i in 0..m.len()
                    invariant
                        out@.len() == i,
                        mv == m@.map_values(|p: (String, String)| pair_view(p)),
                        out@.map_values(|p: (String, String)| pair_view(p)) =~= mv.subrange(
                            0,
                            i as int,
                        ),
                {
                    out.push((m[i].0.clone(), m[i].1.clone()));
                    assert(out@.map_values(|p: (String, String)| pair_view(p)) =~= mv.subrange(
                        0,
                        i as int + 1,
                    ));
                }
                assert(mv.subrange(0, m.len() as int) =~= mv);
                Value::StrMap(out)
            },
            Value::Blob(b) => {
                let mut out: Vec<u8> = Vec::new();
                assert(out@ =~= b@.subrange(0, 0));
                for i in 0..b.len()
                    invariant
                        out@ =~= b@.subrange(0, i as int),
                {
                    out.push(b[i]);
                    assert(out@ =~= b@.subrange(0, i as int + 1));
                }
                assert(b@.subrange(0, b.len() as int) =~= b@);
                Value::Blob(out)
            },
        }
    }
}

} // verus!
