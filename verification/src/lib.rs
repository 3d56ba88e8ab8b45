//! Client support for a JSON-RPC style request/response protocol carried
//! over HTTP: correlated request construction, wire-format encoding and
//! decoding, response validation, and a typed error taxonomy.
//!
//! The I/O layer (the HTTP transport) lives outside this crate; it feeds
//! transport outcomes into the [`client`] state machine and carries the
//! wire text produced and consumed by [`codec`].

use vstd::prelude::*;

pub mod client;
pub mod codec;
pub mod error;

pub use error::Error;

verus! {

broadcast use vstd::std_specs::vec::axiom_vec_index_decreases;

/// The mathematical model of a JSON value: what a [`Value`] denotes.
pub enum ValueView {
    /// JSON `null`.
    Null,
    /// A JSON boolean.
    Bool(bool),
    /// A JSON integer number.
    Num(int),
    /// A JSON string, as a sequence of characters.
    Str(Seq<char>),
    /// A JSON array.
    Array(Seq<ValueView>),
    /// A JSON object, as an ordered sequence of key/value pairs.
    Object(Seq<(Seq<char>, ValueView)>),
}

/// A JSON value as the protocol core reads it: the `id`, `params`,
/// `result` and `data` fields of the wire objects.
///
/// Numbers are modelled as 64-bit signed integers; the protocol itself
/// only produces integer correlation ids and 32-bit error codes.
#[derive(Debug)]
pub enum Value {
    /// JSON `null`.
    Null,
    /// A JSON boolean.
    Bool(bool),
    /// A JSON integer number.
    Num(i64),
    /// A JSON string.
    Str(String),
    /// A JSON array.
    Array(Vec<Value>),
    /// A JSON object, as an ordered list of key/value pairs.
    Object(Vec<(String, Value)>),
}

/// The model of a sequence of JSON values.
pub open spec fn views_of(s: Seq<Value>) -> Seq<ValueView>
    decreases s,
    via views_of_decreases
{
    if s.len() == 0 {
        Seq::empty()
    } else {
        views_of(s.drop_last()).push(view_of(s.last()))
    }
}

#[via_fn]
proof fn views_of_decreases(s: Seq<Value>) {
    if s.len() != 0 {
        assert(decreases_to!(s => s.subrange(0, s.len() - 1)));
        assert(s.drop_last() == s.subrange(0, s.len() - 1));
        assert(decreases_to!(s => s[s.len() - 1]));
        assert(s.last() == s[s.len() - 1]);
    }
}

/// The model of a sequence of JSON object members.
pub open spec fn entry_views_of(s: Seq<(String, Value)>) -> Seq<(Seq<char>, ValueView)>
    decreases s,
    via entry_views_of_decreases
{
    if s.len() == 0 {
        Seq::empty()
    } else {
        entry_views_of(s.drop_last()).push((s.last().0@, view_of(s.last().1)))
    }
}

#[via_fn]
proof fn entry_views_of_decreases(s: Seq<(String, Value)>) {
    if s.len() != 0 {
        assert(decreases_to!(s => s.subrange(0, s.len() - 1)));
        assert(s.drop_last() == s.subrange(0, s.len() - 1));
        assert(decreases_to!(s => s[s.len() - 1]));
        assert(s.last() == s[s.len() - 1]);
        assert(decreases_to!(s[s.len() - 1] => s[s.len() - 1].1));
    }
}

/// Element-wise reading of [`views_of`].
pub broadcast proof fn lemma_views_of(s: Seq<Value>)
    ensures
        (#[trigger] views_of(s)).len() == s.len(),
        forall|i: int| 0 <= i < s.len() ==> views_of(s)[i] == s[i]@,
    decreases s.len(),
{
    if s.len() != 0 {
        lemma_views_of(s.drop_last());
        assert(forall|i: int|
            0 <= i < s.len() - 1 ==> views_of(s)[i] == s.drop_last()[i]@ && s.drop_last()[i]
                == s[i]);
    }
}

/// Element-wise reading of [`entry_views_of`].
pub broadcast proof fn lemma_entry_views_of(s: Seq<(String, Value)>)
    ensures
        (#[trigger] entry_views_of(s)).len() == s.len(),
        forall|i: int|
            0 <= i < s.len() ==> entry_views_of(s)[i] == (s[i].0@, s[i].1@),
    decreases s.len(),
{
    if s.len() != 0 {
        lemma_entry_views_of(s.drop_last());
        assert(forall|i: int|
            0 <= i < s.len() - 1 ==> entry_views_of(s)[i] == (
                s.drop_last()[i].0@,
                s.drop_last()[i].1@,
            ) && s.drop_last()[i] == s[i]);
    }
}

/// The model a JSON value denotes.
pub open spec fn view_of(v: Value) -> ValueView
    decreases v,
    via view_of_decreases
{
    match v {
        Value::Null => ValueView::Null,
        Value::Bool(b) => ValueView::Bool(b),
        Value::Num(n) => ValueView::Num(n as int),
        Value::Str(s) => ValueView::Str(s@),
        Value::Array(x) => ValueView::Array(views_of(x@)),
        Value::Object(x) => ValueView::Object(entry_views_of(x@)),
    }
}

#[via_fn]
proof fn view_of_decreases(v: Value) {
    match v {
        Value::Array(x) => {
            assert(decreases_to!(v => v->Array_0));
            assert(decreases_to!(v->Array_0 => x@));
        },
        Value::Object(x) => {
            assert(decreases_to!(v => v->Object_0));
            assert(decreases_to!(v->Object_0 => x@));
        },
        _ => {},
    }
}

impl View for Value {
    type V = ValueView;

    open spec fn view(&self) -> ValueView {
        view_of(*self)
    }
}

impl Value {
    /// Deep equality of two JSON values: true exactly when they denote
    /// the same [`ValueView`].
    pub fn deep_eq(&self, other: &Value) -> (r: bool)
        ensures
            r == (self@ == other@),
        decreases *self,
    {
        match (self, other) {
            (Value::Null, Value::Null) => true,
            (Value::Bool(x), Value::Bool(y)) => *x == *y,
            (Value::Num(x), Value::Num(y)) => *x == *y,
            (Value::Str(x), Value::Str(y)) => *x == *y,
            (Value::Array(x), Value::Array(y)) => {
                if x.len() != y.len() {
                    proof {
                        lemma_views_of(x@);
                        lemma_views_of(y@);
                    }
                    return false;
                }
                let mut i: usize = 0;
                while i < x.len()
                    invariant
                        *self == Value::Array(*x),
                        *other == Value::Array(*y),
                        0 <= i <= x@.len(),
                        x@.len() == y@.len(),
                        forall|j: int| 0 <= j < i ==> (#[trigger] x@[j])@ == y@[j]@,
                    decreases x@.len() - i,
                {
                    proof {
                        assert(decreases_to!(*self => self->Array_0));
                        assert(decreases_to!(self->Array_0 => x@));
                        assert(decreases_to!(x@ => x@[i as int]));
                    }
                    if !x[i].deep_eq(&y[i]) {
                        proof {
                            lemma_views_of(x@);
                            lemma_views_of(y@);
                            assert(self@->Array_0[i as int] != other@->Array_0[i as int]);
                        }
                        return false;
                    }
                    i += 1;
                }
                proof {
                    lemma_views_of(x@);
                    lemma_views_of(y@);
                    assert(self@->Array_0 =~= other@->Array_0);
                }
                true
            },
            (Value::Object(x), Value::Object(y)) => {
                if x.len() != y.len() {
                    proof {
                        lemma_entry_views_of(x@);
                        lemma_entry_views_of(y@);
                    }
                    return false;
                }
                let mut i: usize = 0;
                while i < x.len()
                    invariant
                        *self == Value::Object(*x),
                        *other == Value::Object(*y),
                        0 <= i <= x@.len(),
                        x@.len() == y@.len(),
                        forall|j: int|
                            0 <= j < i ==> (#[trigger] x@[j]).0@ == y@[j].0@ && x@[j].1@
                                == y@[j].1@,
                    decreases x@.len() - i,
                {
                    if !(x[i].0 == y[i].0) {
                        proof {
                            lemma_entry_views_of(x@);
                            lemma_entry_views_of(y@);
                            assert(self@->Object_0[i as int].0 != other@->Object_0[i as int].0);
                        }
                        return false;
                    }
                    proof {
                        assert(decreases_to!(*self => self->Object_0));
                        assert(decreases_to!(self->Object_0 => x@));
                        assert(decreases_to!(x@ => x@[i as int]));
                        assert(decreases_to!(x@[i as int] => x@[i as int].1));
                    }
                    if !x[i].1.deep_eq(&y[i].1) {
                        proof {
                            lemma_entry_views_of(x@);
                            lemma_entry_views_of(y@);
                            assert(self@->Object_0[i as int].1 != other@->Object_0[i as int].1);
                        }
                        return false;
                    }
                    i += 1;
                }
                proof {
                    lemma_entry_views_of(x@);
                    lemma_entry_views_of(y@);
                    assert(self@->Object_0 =~= other@->Object_0);
                }
                true
            },
            _ => false,
        }
    }
}

impl PartialEq for Value {
    fn eq(&self, other: &Value) -> (r: bool) {
        self.deep_eq(other)
    }
}

impl vstd::std_specs::cmp::PartialEqSpecImpl for Value {
    open spec fn obeys_eq_spec() -> bool {
        true
    }

    open spec fn eq_spec(&self, other: &Value) -> bool {
        self@ == other@
    }
}

/// The model of a [`Request`].
pub struct RequestView {
    /// The RPC method name.
    pub method: Seq<char>,
    /// The parameter list.
    pub params: Seq<ValueView>,
    /// The correlation id.
    pub id: ValueView,
}

/// A request object: an RPC call with its correlation id.
#[derive(Debug)]
pub struct Request {
    /// The name of the RPC call.
    pub method: String,
    /// Parameters to the RPC call.
    pub params: Vec<Value>,
    /// Identifier for this Request, which should appear in the response.
    pub id: Value,
}

impl View for Request {
    type V = RequestView;

    open spec fn view(&self) -> RequestView {
        RequestView {
            method: self.method@,
            params: Seq::new(self.params@.len(), |i: int| self.params@[i]@),
            id: self.id@,
        }
    }
}

/// The model of a [`Response`].
pub struct ResponseView {
    /// The result, if one is present.
    pub result: Option<ValueView>,
    /// The error object, if one is present.
    pub error: Option<error::RpcErrorView>,
    /// The correlation id.
    pub id: ValueView,
}

/// A response object, as decoded from the wire.
///
/// Conceptually exactly one of `result`/`error` is present, but decoding
/// does not enforce that: callers must handle "both absent" explicitly
/// (see [`error::Error::NoErrorOrResult`]).
#[derive(Debug)]
pub struct Response {
    /// A result if there is one, or null.
    pub result: Option<Value>,
    /// An error if there is one, or null.
    pub error: Option<error::RpcError>,
    /// Identifier for this Response, which should match that of the request.
    pub id: Value,
}

impl View for Response {
    type V = ResponseView;

    open spec fn view(&self) -> ResponseView {
        ResponseView {
            result: match self.result {
                Some(v) => Some(v@),
                None => None,
            },
            error: match self.error {
                Some(e) => Some(e@),
                None => None,
            },
            id: self.id@,
        }
    }
}

impl Response {
    /// Extract the result from a response, consuming the response.
    ///
    /// A present error object wins over a present result; a response with
    /// neither is a protocol violation surfaced as `NoErrorOrResult`.
    pub fn into_result(self) -> (r: Result<Value, error::Error>)
        ensures
            match (self.error, self.result) {
                (Some(e), _) => r == Result::<Value, error::Error>::Err(error::Error::Rpc(e)),
                (None, Some(v)) => r == Result::<Value, error::Error>::Ok(v),
                (None, None) => r == Result::<Value, error::Error>::Err(
                    error::Error::NoErrorOrResult,
                ),
            },
    {
        if let Some(e) = self.error {
            return Err(error::Error::Rpc(e));
        }
        match self.result {
            Some(res) => Ok(res),
            None => Err(error::Error::NoErrorOrResult),
        }
    }

    /// Return the RPC error, if there was one, but do not check the result.
    pub fn check_error(self) -> (r: Result<(), error::Error>)
        ensures
            match self.error {
                Some(e) => r == Result::<(), error::Error>::Err(error::Error::Rpc(e)),
                None => r == Result::<(), error::Error>::Ok(()),
            },
    {
        if let Some(e) = self.error {
            Err(error::Error::Rpc(e))
        } else {
            Ok(())
        }
    }

    /// Returns whether or not the `result` field is empty.
    pub fn is_none(&self) -> (r: bool)
        ensures
            r == (self.result is None),
    {
        self.result.is_none()
    }
}

} // verus!
