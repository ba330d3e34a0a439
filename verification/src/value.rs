//! Run-time values: numbers, strings, nodes and edges copied out of the
//! snapshot, streams, and functions; and the errors evaluation can raise.

use vstd::prelude::*;
use std::rc::Rc;
use crate::dump::{Edge, EdgeV, Node, NodeV};
use crate::query::Context;
use crate::run::{edges_value, first_value, map_items_x, paths_value, spec_call, spec_call_exact, spec_callable_arity, BuiltinFn, Plan, PlanV};
use crate::run::{spec_edges_value, spec_first_value, spec_map_items, spec_paths_value};
use crate::stream::{Stream, StreamItem, StreamV};

verus! {

broadcast use
    vstd::std_specs::vec::group_vec_axioms,
    vstd::seq::group_seq_axioms;

/// An error raised during expression evaluation.
#[derive(Debug)]
pub enum Error {
    /// Type mismatch.
    Type { actual: &'static str, expected: &'static str },
    /// Trying to draw a value (`first`, `ends`) from an empty stream.
    EmptyStream,
    /// Matching on a non-existent node or edge field.
    NoSuchField { value_kind: &'static str, field: String },
    /// Attempt to apply a value that is not a function.
    NotAFunction,
    /// Evaluation exceeded the call-depth budget it was given.
    Budget,
    /// An internal invariant of the evaluator was broken: a plan read a
    /// location its activation does not have, or a value was malformed.
    /// Plans and values built by this library's own pipeline never raise it.
    Internal,
}

/// The mathematical content of an [`Error`].
#[verifier::ext_equal]
pub enum ErrorV {
    Type { actual: Seq<char>, expected: Seq<char> },
    EmptyStream,
    NoSuchField { value_kind: Seq<char>, field: Seq<char> },
    NotAFunction,
    Budget,
    Internal,
}

impl View for Error {
    type V = ErrorV;

    open spec fn view(&self) -> ErrorV {
        match self {
            Error::Type { actual, expected } => ErrorV::Type {
                actual: actual@,
                expected: expected@,
            },
            Error::EmptyStream => ErrorV::EmptyStream,
            Error::NoSuchField { value_kind, field } => ErrorV::NoSuchField {
                value_kind: value_kind@,
                field: field@,
            },
            Error::NotAFunction => ErrorV::NotAFunction,
            Error::Budget => ErrorV::Budget,
            Error::Internal => ErrorV::Internal,
        }
    }
}

impl Error {
    /// An owned copy with the same content.
    pub fn duplicate(&self) -> (r: Error)
        ensures
            r@ == self@,
    {
        match self {
            Error::Type { actual, expected } => Error::Type { actual, expected },
            Error::EmptyStream => Error::EmptyStream,
            Error::NoSuchField { value_kind, field } => Error::NoSuchField {
                value_kind,
                field: field.clone(),
            },
            Error::NotAFunction => Error::NotAFunction,
            Error::Budget => Error::Budget,
            Error::Internal => Error::Internal,
        }
    }
}

/// A value produced by evaluating an expression.
pub enum Value {
    Number(u64),
    String(String),
    Edge(Edge),
    Node(Node),
    Stream(Stream),
    Function(Function),
}

/// A function value: a closure over a lambda's plan, a built-in operator,
/// or a partial application awaiting the rest of its arguments.
pub enum Callable {
    Closure { name: String, arity: usize, body: Rc<Plan>, captured: Rc<Vec<Value>> },
    Builtin(BuiltinFn),
    Partial { function: Box<Function>, arity: usize, actuals: Rc<Vec<Value>> },
}

/// A first-class function value, cheap to copy.
pub struct Function(pub Rc<Callable>);

/// The mathematical content of a [`Value`].
#[verifier::ext_equal]
pub enum ValueV {
    Number(u64),
    String(Seq<char>),
    Edge(EdgeV),
    Node(NodeV),
    Stream(StreamV),
    Function(CallableV),
}

/// The mathematical content of a [`Callable`].
#[verifier::ext_equal]
pub enum CallableV {
    Closure { name: Seq<char>, arity: usize, body: PlanV, captured: Seq<ValueV> },
    Builtin(BuiltinFn),
    Partial { function: Box<CallableV>, arity: usize, actuals: Seq<ValueV> },
}

impl Value {
    /// The mathematical content of the value.
    pub open spec fn deep_view(&self) -> ValueV
        decreases self,
    {
        match self {
            Value::Number(n) => ValueV::Number(*n),
            Value::String(s) => ValueV::String(s@),
            Value::Edge(e) => ValueV::Edge(e@),
            Value::Node(n) => ValueV::Node(n@),
            Value::Stream(s) => ValueV::Stream(
                StreamV { items: deep_view_item_vec(*s.items), pos: s.pos as int },
            ),
            Value::Function(f) => ValueV::Function(f.deep_view()),
        }
    }
}

/// The views of a vector of stream items.
pub open spec fn deep_view_item_vec(v: Vec<StreamItem>) -> Seq<Result<ValueV, ErrorV>>
    decreases v,
{
    deep_view_items(v@)
}

/// The views of a sequence of stream items.
pub open spec fn deep_view_items(s: Seq<StreamItem>) -> Seq<Result<ValueV, ErrorV>>
    decreases s,
{
    Seq::new(
        s.len(),
        |i: int|
            if 0 <= i < s.len() {
                match s[i] {
                    Ok(v) => Ok(v.deep_view()),
                    Err(e) => Err(e@),
                }
            } else {
                Ok(ValueV::Number(0))
            },
    )
}

/// The views of a vector of values.
pub open spec fn deep_view_value_vec(v: Vec<Value>) -> Seq<ValueV>
    decreases v,
{
    deep_view_values(v@)
}

/// The views of a sequence of values.
pub open spec fn deep_view_values(s: Seq<Value>) -> Seq<ValueV>
    decreases s,
{
    Seq::new(
        s.len(),
        |i: int|
            if 0 <= i < s.len() {
                s[i].deep_view()
            } else {
                ValueV::Number(0)
            },
    )
}

impl Function {
    /// The mathematical content of the function.
    pub open spec fn deep_view(&self) -> CallableV
        decreases self,
    {
        (*self.0).deep_view()
    }
}

impl Callable {
    /// The mathematical content of the callable.
    pub open spec fn deep_view(&self) -> CallableV
        decreases self,
    {
        match self {
            Callable::Closure { name, arity, body, captured } => CallableV::Closure {
                name: name@,
                arity: *arity,
                body: (*(*body)).deep_view(),
                captured: deep_view_value_vec(*(*captured)),
            },
            Callable::Builtin(b) => CallableV::Builtin(*b),
            Callable::Partial { function, arity, actuals } => CallableV::Partial {
                function: Box::new(function.deep_view()),
                arity: *arity,
                actuals: deep_view_value_vec(*(*actuals)),
            },
        }
    }
}

impl Value {
    /// An independent value with the same content. Streams and functions
    /// share their underlying parts read-only; a copied stream's cursor
    /// advances independently.
    pub fn duplicate(&self) -> (r: Value)
        ensures
            r.deep_view() == self.deep_view(),
    {
        match self {
            Value::Number(n) => Value::Number(*n),
            Value::String(s) => Value::String(s.clone()),
            Value::Edge(e) => Value::Edge(e.duplicate()),
            Value::Node(n) => Value::Node(n.duplicate()),
            Value::Stream(s) => Value::Stream(s.duplicate()),
            Value::Function(f) => Value::Function(f.duplicate()),
        }
    }

    /// The name of the value's kind, as the type errors report it.
    pub fn kind_name(&self) -> (r: &'static str)
        ensures
            r@ == spec_kind_name(self.deep_view()),
    {
        match self {
            Value::Number(_) => "number",
            Value::String(_) => "string",
            Value::Edge(_) => "edge",
            Value::Node(_) => "node",
            Value::Stream(_) => "stream",
            Value::Function(_) => "function",
        }
    }
}

/// The name of a value kind.
pub open spec fn spec_kind_name(v: ValueV) -> Seq<char> {
    match v {
        ValueV::Number(_) => "number"@,
        ValueV::String(_) => "string"@,
        ValueV::Edge(_) => "edge"@,
        ValueV::Node(_) => "node"@,
        ValueV::Stream(_) => "stream"@,
        ValueV::Function(_) => "function"@,
    }
}

impl Function {
    /// A new function value over the given callable.
    pub fn new(function: Callable) -> (r: Function)
        ensures
            r.deep_view() == function.deep_view(),
    {
        Function(Rc::new(function))
    }

    /// Another handle to the same function.
    pub fn duplicate(&self) -> (r: Function)
        ensures
            r.deep_view() == self.deep_view(),
    {
        Function(crate::shim::rc_dup(&self.0))
    }
}

/// Copy a vector of values.
pub fn duplicate_values(v: &Vec<Value>) -> (r: Vec<Value>)
    ensures
        deep_view_values(r@) == deep_view_values(v@),
{
    let mut r: Vec<Value> = Vec::new();
    let mut i: usize = 0;
    while i < v.len()
        invariant
            i <= v@.len(),
            r@.len() == i,
            forall|k: int| 0 <= k < i ==> #[trigger] r@[k].deep_view() == v@[k].deep_view(),
        decreases v@.len() - i,
    {
        let d = v[i].duplicate();
        r.push(d);
        i = i + 1;
    }
    proof {
        assert forall|k: int| 0 <= k < r@.len() implies deep_view_values(r@)[k]
            == deep_view_values(v@)[k] by {
            assert(r@[k].deep_view() == v@[k].deep_view());
        }
        assert(deep_view_values(r@) =~= deep_view_values(v@));
    }
    r
}


impl Function {
    /// How many arguments the function expects.
    pub fn arity(&self) -> (r: usize)
        ensures
            r == spec_callable_arity(self.deep_view()),
    {
        match &*crate::shim::rc_get(&self.0) {
            Callable::Closure { arity, .. } => *arity,
            Callable::Builtin(b) => b.arity(),
            Callable::Partial { arity, .. } => *arity,
        }
    }

    /// Apply the function to actual parameter values, consuming arguments
    /// from the right: with fewer than its arity the result awaits the rest;
    /// with more, the result of the exact call is applied to the remainder.
    /// Mirrors [`spec_call`].
    pub fn call(&self, actuals: Vec<Value>, cx: &Context, fuel: u64) -> (r: Result<Value, Error>)
        requires
            cx.dump.wf(),
        ensures
            match r {
                Ok(v) => spec_call(
                    self.deep_view(),
                    deep_view_values(actuals@),
                    cx.dump@,
                    fuel as nat,
                ) == Ok::<ValueV, ErrorV>(v.deep_view()),
                Err(e) => spec_call(
                    self.deep_view(),
                    deep_view_values(actuals@),
                    cx.dump@,
                    fuel as nat,
                ) == Err::<ValueV, ErrorV>(e@),
            },
        decreases fuel, self, 2int,
    {
        let ghost fv = self.deep_view();
        let ghost argsv = deep_view_values(actuals@);
        let ghost dumpv = cx.dump@;
        let ghost fueln = fuel as nat;
        let ar = self.arity();
        if ar == 0 {
            return Err(Error::Internal);
        }
        if actuals.len() < ar {
            let deficit = ar - actuals.len();
            let r = Function::new(
                Callable::Partial {
                    function: Box::new(self.duplicate()),
                    arity: deficit,
                    actuals: Rc::new(actuals),
                },
            );
            return Ok(Value::Function(r));
        }
        let split = actuals.len() - ar;
        let mut rest = actuals;
        let mut unused: Vec<Value> = Vec::new();
        proof {
            assert(deep_view_values(unused@) =~= argsv.take(0));
            assert(deep_view_values(rest@) =~= argsv.skip(0));
        }
        while unused.len() < split
            invariant
                unused@.len() <= split <= argsv.len(),
                rest@.len() == argsv.len() - unused@.len(),
                deep_view_values(unused@) =~= argsv.take(unused@.len() as int),
                deep_view_values(rest@) =~= argsv.skip(unused@.len() as int),
            decreases split - unused@.len(),
        {
            let ghost u0 = deep_view_values(unused@);
            let ghost r0 = deep_view_values(rest@);
            let ghost rv0 = rest@;
            let ghost k = unused@.len() as int;
            let x = rest.remove(0);
            unused.push(x);
            proof {
                assert(deep_view_values(unused@) =~= u0.push(
                    unused@[unused@.len() - 1].deep_view(),
                ));
                assert(unused@[unused@.len() - 1].deep_view() == r0[0]);
                assert(r0[0] == argsv[k]);
                assert(deep_view_values(unused@) =~= argsv.take(k + 1));
                assert forall|i: int| 0 <= i < rest@.len() implies rest@[i].deep_view() == argsv[k
                    + 1 + i] by {
                    assert(rest@[i] == rv0[i + 1]);
                    assert(rv0[i + 1].deep_view() == r0[i + 1]);
                    assert(r0[i + 1] == argsv.skip(k)[i + 1]);
                }
                assert(deep_view_values(rest@) =~= argsv.skip(k + 1));
            }
        }
        let exact = rest;
        let ghost unusedv = deep_view_values(unused@);
        let ghost exactv = deep_view_values(exact@);
        proof {
            assert(unusedv == argsv.take(split as int));
            assert(exactv == argsv.skip(split as int));
        }
        let rv = match self.call_exact(exact, cx, fuel) {
            Ok(v) => v,
            Err(e) => {
                return Err(e);
            },
        };
        if unused.len() == 0 {
            proof {
                assert(unusedv.len() == 0);
            }
            return Ok(rv);
        }
        match rv {
            Value::Function(f2) => {
                if fuel == 0 {
                    Err(Error::Budget)
                } else {
                    f2.call(unused, cx, fuel - 1)
                }
            },
            _ => Err(Error::NotAFunction),
        }
    }

    /// Apply the function to exactly as many arguments as it expects.
    /// Mirrors [`spec_call_exact`].
    #[verifier::loop_isolation(false)]
    pub fn call_exact(&self, exact: Vec<Value>, cx: &Context, fuel: u64) -> (r: Result<
        Value,
        Error,
    >)
        requires
            cx.dump.wf(),
        ensures
            match r {
                Ok(v) => spec_call_exact(
                    self.deep_view(),
                    deep_view_values(exact@),
                    cx.dump@,
                    fuel as nat,
                ) == Ok::<ValueV, ErrorV>(v.deep_view()),
                Err(e) => spec_call_exact(
                    self.deep_view(),
                    deep_view_values(exact@),
                    cx.dump@,
                    fuel as nat,
                ) == Err::<ValueV, ErrorV>(e@),
            },
        decreases fuel, self, 1int,
    {
        let ghost fv = self.deep_view();
        let ghost exactv = deep_view_values(exact@);
        let ghost dumpv = cx.dump@;
        let ghost fueln = fuel as nat;
        let inner: &Callable = crate::shim::rc_get(&self.0);
        proof {
            assert(inner.deep_view() == fv);
        }
        match inner {
            Callable::Closure { name, arity, body, captured } => {
                if fuel == 0 {
                    Err(Error::Budget)
                } else {
                    let act = crate::fun::Activation {
                        captured: crate::shim::rc_dup(captured),
                        actuals: Rc::new(exact),
                    };
                    proof {
                        assert(act.deep_view() =~= (crate::fun::ActivationV {
                            captured: deep_view_value_vec(*(*captured)),
                            actuals: exactv,
                        }));
                        assert(fv == (CallableV::Closure {
                            name: name@,
                            arity: *arity,
                            body: (*(*body)).deep_view(),
                            captured: deep_view_value_vec(*(*captured)),
                        }));
                    }
                    body.run(&act, cx, fuel - 1)
                }
            },
            Callable::Builtin(b) => {
                if exact.len() != b.arity() {
                    return Err(Error::Internal);
                }
                match b {
                    BuiltinFn::Edges => {
                        proof {
                            assert(exactv[0] == exact@[0].deep_view());
                        }
                        edges_value(&exact[0])
                    },
                    BuiltinFn::First => {
                        let mut ex = exact;
                        let v0 = ex.remove(0);
                        proof {
                            assert(v0.deep_view() == exactv[0]);
                        }
                        first_value(v0)
                    },
                    BuiltinFn::Paths => {
                        proof {
                            assert(exactv[0] == exact@[0].deep_view());
                        }
                        paths_value(cx, &exact[0])
                    },
                    BuiltinFn::MapFn => {
                        let mut ex = exact;
                        let v0 = ex.remove(0);
                        let v1 = ex.remove(0);
                        proof {
                            assert(v0.deep_view() == exactv[0]);
                            assert(v1.deep_view() == exactv[1]);
                        }
                        match v0 {
                            Value::Stream(s) => match v1 {
                                Value::Function(f2) => {
                                    if fuel == 0 {
                                        Err(Error::Budget)
                                    } else {
                                        let items = crate::shim::rc_get(&s.items);
                                        let out = map_items_x(&f2, items, s.pos, cx, fuel - 1);
                                        Ok(Value::Stream(crate::stream::Stream::new(out)))
                                    }
                                },
                                v => Err(
                                    Error::Type { expected: "function", actual: v.kind_name() },
                                ),
                            },
                            v => Err(Error::Type { expected: "stream", actual: v.kind_name() }),
                        }
                    },
                }
            },
            Callable::Partial { function, arity, actuals } => {
                let saved = duplicate_values(crate::shim::rc_get(actuals));
                let inner_arity = function.arity();
                if exact.len() <= usize::MAX - saved.len() && exact.len() + saved.len()
                    == inner_arity {
                    let mut combined = exact;
                    let ghost combined0 = deep_view_values(combined@);
                    let ghost savedv = deep_view_values(saved@);
                    let mut rest = saved;
                    proof {
                        assert(deep_view_values(combined@) =~= combined0 + savedv.take(0));
                        assert(deep_view_values(rest@) =~= savedv.skip(0));
                    }
                    while rest.len() > 0
                        invariant
                            deep_view_values(rest@) =~= savedv.skip(
                                savedv.len() - rest@.len(),
                            ),
                            deep_view_values(combined@) =~= combined0 + savedv.take(
                                savedv.len() - rest@.len(),
                            ),
                            rest@.len() <= savedv.len(),
                        decreases rest@.len(),
                    {
                        let ghost k = savedv.len() - rest@.len();
                        let ghost c0 = deep_view_values(combined@);
                        let ghost r0 = deep_view_values(rest@);
                        let ghost rv0 = rest@;
                        let x = rest.remove(0);
                        combined.push(x);
                        proof {
                            assert(deep_view_values(combined@) =~= c0.push(
                                combined@[combined@.len() - 1].deep_view(),
                            ));
                            assert(combined@[combined@.len() - 1].deep_view() == r0[0]);
                            assert(r0[0] == savedv[k]);
                            assert(deep_view_values(combined@) =~= combined0 + savedv.take(k + 1));
                            assert forall|i: int| 0 <= i < rest@.len() implies rest@[i].deep_view()
                                == savedv[k + 1 + i] by {
                                assert(rest@[i] == rv0[i + 1]);
                                assert(rv0[i + 1].deep_view() == r0[i + 1]);
                                assert(r0[i + 1] == savedv.skip(k)[i + 1]);
                            }
                            assert(deep_view_values(rest@) =~= savedv.skip(k + 1));
                        }
                    }
                    proof {
                        assert(savedv.take(savedv.len() as int) =~= savedv);
                        assert(deep_view_values(combined@) == exactv + savedv);
                    }
                    function.call_exact(combined, cx, fuel)
                } else {
                    Err(Error::Internal)
                }
            },
        }
    }
}

} // verus!

