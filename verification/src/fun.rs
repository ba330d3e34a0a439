//! Functions and closure conversion: activations, capture lists, and the
//! static analysis that lays closures out.

use vstd::prelude::*;
use std::rc::Rc;
use crate::ast::{formals_view, Expr, ExprV, LambdaId, Predicate, PredicateV, UseId, Var, VarV};
use crate::id_vec::{IdVec, IdVecIndex};
use crate::query::{StaticError, StaticErrorV};
use crate::value::{deep_view_value_vec, deep_view_values, Value, ValueV};

verus! {

broadcast use
    vstd::std_specs::vec::group_vec_axioms,
    vstd::seq::group_seq_axioms;

/// A place a variable's value lives in an activation.
#[derive(Clone, Copy, PartialEq, Eq, Structural, Debug)]
pub enum VarLocation {
    /// The parameter with the given index.
    Actual(usize),
    /// The entry at the given index of the current closure's captured vector.
    Captured(usize),
}

/// How to build the captured vector of a closure or filter, given an
/// activation for the expression's lexical context: the `i`-th entry says
/// where the value belonging in `captured[i]` lives *outside* the lambda.
pub struct CaptureList(pub Vec<VarLocation>);

impl CaptureList {
    /// An independent copy.
    pub fn duplicate(&self) -> (r: CaptureList)
        ensures
            r.0@ == self.0@,
    {
        let mut v: Vec<VarLocation> = Vec::new();
        let mut i: usize = 0;
        while i < self.0.len()
            invariant
                i <= self.0@.len(),
                v@ =~= self.0@.take(i as int),
            decreases self.0@.len() - i,
        {
            v.push(self.0[i]);
            proof {
                assert(v@ =~= self.0@.take(i as int + 1));
            }
            i = i + 1;
        }
        proof {
            assert(self.0@.take(self.0@.len() as int) =~= self.0@);
        }
        CaptureList(v)
    }
}

/// Data for one call's frame: the values captured by the closure being run,
/// and the actual parameters the call passed. For a top-level evaluation
/// both are empty.
pub struct Activation {
    pub captured: Rc<Vec<Value>>,
    pub actuals: Rc<Vec<Value>>,
}

/// The mathematical content of an [`Activation`].
#[verifier::ext_equal]
pub struct ActivationV {
    pub captured: Seq<ValueV>,
    pub actuals: Seq<ValueV>,
}

impl ActivationV {
    /// The value at a location, if the activation has it.
    pub open spec fn read(self, loc: VarLocation) -> Option<ValueV> {
        match loc {
            VarLocation::Actual(i) => if i < self.actuals.len() {
                Some(self.actuals[i as int])
            } else {
                None
            },
            VarLocation::Captured(i) => if i < self.captured.len() {
                Some(self.captured[i as int])
            } else {
                None
            },
        }
    }

    /// The values at each location of a capture list, if the activation has
    /// them all.
    pub open spec fn read_all(self, locs: Seq<VarLocation>) -> Option<Seq<ValueV>>
        decreases locs.len(),
    {
        if locs.len() == 0 {
            Some(Seq::empty())
        } else {
            match self.read_all(locs.drop_last()) {
                Some(s) => match self.read(locs.last()) {
                    Some(v) => Some(s.push(v)),
                    None => None,
                },
                None => None,
            }
        }
    }
}

impl Activation {
    /// The mathematical content of the activation.
    pub open spec fn deep_view(&self) -> ActivationV {
        ActivationV {
            captured: deep_view_value_vec(*self.captured),
            actuals: deep_view_value_vec(*self.actuals),
        }
    }

    /// An activation for a top-level evaluation: no captures, no arguments.
    pub fn for_eval(_base: &ActivationBase) -> (r: Activation)
        ensures
            r.deep_view() == (ActivationV { captured: Seq::<ValueV>::empty(), actuals: Seq::<
                ValueV,
            >::empty() }),
    {
        let r = Activation { captured: Rc::new(Vec::new()), actuals: Rc::new(Vec::new()) };
        proof {
            assert(deep_view_values(Seq::<Value>::empty()) =~= Seq::<ValueV>::empty());
        }
        r
    }

    /// An activation with the given captured vector and no arguments, as a
    /// filter's predicate runs in.
    pub fn from_captured(captured: Rc<Vec<Value>>) -> (r: Activation)
        ensures
            r.deep_view() == (ActivationV {
                captured: deep_view_value_vec(*captured),
                actuals: Seq::<ValueV>::empty(),
            }),
    {
        let r = Activation { captured, actuals: Rc::new(Vec::new()) };
        proof {
            assert(deep_view_values(Seq::<Value>::empty()) =~= Seq::<ValueV>::empty());
        }
        r
    }

    /// The value at a location, or `None` if this activation does not have
    /// it; a correctly analyzed plan always stays within bounds.
    pub fn get(&self, loc: &VarLocation) -> (r: Option<Value>)
        ensures
            match r {
                Some(v) => self.deep_view().read(*loc) == Some(v.deep_view()),
                None => self.deep_view().read(*loc) is None,
            },
    {
        match loc {
            VarLocation::Actual(i) => {
                if *i < self.actuals.len() {
                    Some(self.actuals[*i].duplicate())
                } else {
                    None
                }
            },
            VarLocation::Captured(i) => {
                if *i < self.captured.len() {
                    Some(self.captured[*i].duplicate())
                } else {
                    None
                }
            },
        }
    }

    /// The values a capture list names, gathered in order, or `None` if any
    /// location is out of this activation's bounds.
    pub fn get_captured(&self, capture_list: &CaptureList) -> (r: Option<Vec<Value>>)
        ensures
            match r {
                Some(vs) => self.deep_view().read_all(capture_list.0@) == Some(
                    deep_view_value_vec(vs),
                ),
                None => self.deep_view().read_all(capture_list.0@) is None,
            },
    {
        let mut out: Vec<Value> = Vec::new();
        let mut i: usize = 0;
        proof {
            assert(self.deep_view().read_all(capture_list.0@.take(0)) =~= Some(Seq::<
                ValueV,
            >::empty()));
            assert(deep_view_values(out@) =~= Seq::<ValueV>::empty());
        }
        while i < capture_list.0.len()
            invariant
                i <= capture_list.0@.len(),
                self.deep_view().read_all(capture_list.0@.take(i as int)) == Some(
                    deep_view_values(out@),
                ),
            decreases capture_list.0@.len() - i,
        {
            let ghost prefix = capture_list.0@.take(i as int);
            let loc = capture_list.0[i];
            match self.get(&loc) {
                Some(v) => {
                    let ghost out0 = deep_view_values(out@);
                    out.push(v);
                    proof {
                        let next = capture_list.0@.take(i as int + 1);
                        assert(next.drop_last() =~= prefix);
                        assert(next.last() == capture_list.0@[i as int]);
                        assert(deep_view_values(out@) =~= out0.push(
                            out@[out@.len() - 1].deep_view(),
                        ));
                    }
                    i = i + 1;
                },
                None => {
                    proof {
                        let next = capture_list.0@.take(i as int + 1);
                        assert(next.drop_last() =~= prefix);
                        assert(next.last() == capture_list.0@[i as int]);
                        lemma_read_all_prefix_none(
                            self.deep_view(),
                            capture_list.0@,
                            i as int + 1,
                        );
                    }
                    return None;
                },
            }
        }
        proof {
            assert(capture_list.0@.take(capture_list.0@.len() as int) =~= capture_list.0@);
        }
        Some(out)
    }
}

/// A failed prefix fails the whole capture list.
proof fn lemma_read_all_prefix_none(act: ActivationV, locs: Seq<VarLocation>, k: int)
    requires
        0 <= k <= locs.len(),
        act.read_all(locs.take(k)) is None,
    ensures
        act.read_all(locs) is None,
    decreases locs.len() - k,
{
    if k < locs.len() {
        let next = locs.take(k + 1);
        assert(next.drop_last() =~= locs.take(k));
        lemma_read_all_prefix_none(act, locs, k + 1);
    } else {
        assert(locs.take(k) =~= locs);
    }
}

/// What a top-level evaluation's activation is built from. Activations for
/// calls are built by the interpreter itself; the base only marks that an
/// evaluation context exists.
pub struct ActivationBase {
    _private: (),
}

impl ActivationBase {
    /// A base for evaluating a compiled query in the given context.
    pub fn from_context(_cx: &crate::query::Context) -> (r: ActivationBase) {
        ActivationBase { _private: () }
    }
}


/// An identifier for a lexical variable: the `index`-th formal parameter of
/// the lambda labeled `lambda`.
#[derive(Clone, Copy, PartialEq, Eq, Structural, Debug)]
pub struct VarAddr {
    pub lambda: LambdaId,
    pub index: usize,
}

/// The strict order capture sets are kept in: by defining lambda, then by
/// formal index.
pub open spec fn spec_var_lt(a: VarAddr, b: VarAddr) -> bool {
    a.lambda.0 < b.lambda.0 || (a.lambda.0 == b.lambda.0 && a.index < b.index)
}

/// Compare two variable addresses in capture-set order.
pub fn var_lt(a: &VarAddr, b: &VarAddr) -> (r: bool)
    ensures
        r == spec_var_lt(*a, *b),
{
    a.lambda.0 < b.lambda.0 || (a.lambda.0 == b.lambda.0 && a.index < b.index)
}

/// Insertion into a capture set: ordered, duplicates dropped.
pub open spec fn spec_vs_insert(s: Seq<VarAddr>, a: VarAddr) -> Seq<VarAddr>
    decreases s.len(),
{
    if s.len() == 0 {
        seq![a]
    } else if spec_var_lt(a, s[0]) {
        seq![a] + s
    } else if a == s[0] {
        s
    } else {
        seq![s[0]] + spec_vs_insert(s.drop_first(), a)
    }
}

/// Everything in `b` inserted into `a`, left to right.
pub open spec fn spec_vs_union(a: Seq<VarAddr>, b: Seq<VarAddr>) -> Seq<VarAddr>
    decreases b.len(),
{
    if b.len() == 0 {
        a
    } else {
        spec_vs_union(spec_vs_insert(a, b[0]), b.drop_first())
    }
}

/// The capture set without the addresses bound by the given lambda.
pub open spec fn spec_vs_drop_lambda(s: Seq<VarAddr>, id: LambdaId) -> Seq<VarAddr>
    decreases s.len(),
{
    if s.len() == 0 {
        Seq::empty()
    } else if s[0].lambda == id {
        spec_vs_drop_lambda(s.drop_first(), id)
    } else {
        seq![s[0]] + spec_vs_drop_lambda(s.drop_first(), id)
    }
}

/// Inserting at the first position whose element is not below `a` is what
/// [`spec_vs_insert`] does.
proof fn lemma_vs_insert_at(s: Seq<VarAddr>, a: VarAddr, j: int)
    requires
        0 <= j <= s.len(),
        forall|k: int| 0 <= k < j ==> spec_var_lt(#[trigger] s[k], a),
        j < s.len() ==> !spec_var_lt(s[j], a),
    ensures
        spec_vs_insert(s, a) == if j < s.len() && s[j] == a {
            s
        } else {
            s.insert(j, a)
        },
    decreases j,
{
    if j == 0 {
        if s.len() == 0 {
            assert(spec_vs_insert(s, a) =~= s.insert(0, a));
        } else if spec_var_lt(a, s[0]) {
            assert(spec_vs_insert(s, a) =~= s.insert(0, a));
        } else if a == s[0] {
        } else {
            assert(false);
        }
    } else {
        assert(spec_var_lt(s[0], a));
        assert(!spec_var_lt(a, s[0]));
        assert(a != s[0]);
        let t = s.drop_first();
        assert forall|k: int| 0 <= k < j - 1 implies spec_var_lt(#[trigger] t[k], a) by {
            assert(t[k] == s[k + 1]);
        }
        lemma_vs_insert_at(t, a, j - 1);
        if j < s.len() && s[j] == a {
            assert(t[j - 1] == a);
            assert(spec_vs_insert(s, a) =~= s);
        } else {
            assert(spec_vs_insert(s, a) =~= seq![s[0]] + t.insert(j - 1, a));
            assert(seq![s[0]] + t.insert(j - 1, a) =~= s.insert(j, a));
        }
    }
}

/// Insert an address into a capture set. Mirrors [`spec_vs_insert`].
pub fn vs_insert(s: &mut Vec<VarAddr>, a: VarAddr)
    ensures
        final(s)@ == spec_vs_insert(old(s)@, a),
{
    let mut j: usize = 0;
    while j < s.len() && var_lt(&s[j], &a)
        invariant
            j <= s@.len(),
            forall|k: int| 0 <= k < j ==> spec_var_lt(#[trigger] s@[k], a),
            s@ == old(s)@,
        decreases s@.len() - j,
    {
        j = j + 1;
    }
    proof {
        lemma_vs_insert_at(s@, a, j as int);
    }
    if j < s.len() {
        let here = s[j];
        if here.lambda.0 == a.lambda.0 && here.index == a.index {
            return ;
        }
    }
    s.insert(j, a);
}

/// Union a capture set into another. Mirrors [`spec_vs_union`].
pub fn vs_union(a: &mut Vec<VarAddr>, b: &Vec<VarAddr>)
    ensures
        final(a)@ == spec_vs_union(old(a)@, b@),
{
    let mut i: usize = 0;
    proof {
        assert(b@.skip(0) =~= b@);
    }
    while i < b.len()
        invariant
            i <= b@.len(),
            spec_vs_union(old(a)@, b@) == spec_vs_union(a@, b@.skip(i as int)),
        decreases b@.len() - i,
    {
        let ghost rest = b@.skip(i as int);
        proof {
            assert(rest[0] == b@[i as int]);
            assert(rest.drop_first() =~= b@.skip(i as int + 1));
        }
        vs_insert(a, b[i]);
        i = i + 1;
    }
    proof {
        assert(b@.skip(b@.len() as int) =~= Seq::<VarAddr>::empty());
    }
}

/// Drop the addresses a lambda binds. Mirrors [`spec_vs_drop_lambda`].
pub fn vs_drop_lambda(s: &Vec<VarAddr>, id: LambdaId) -> (r: Vec<VarAddr>)
    ensures
        r@ == spec_vs_drop_lambda(s@, id),
{
    let mut out: Vec<VarAddr> = Vec::new();
    let mut i: usize = 0;
    proof {
        assert(s@.skip(0) =~= s@);
        assert(out@ + spec_vs_drop_lambda(s@, id) =~= spec_vs_drop_lambda(s@, id));
    }
    while i < s.len()
        invariant
            i <= s@.len(),
            spec_vs_drop_lambda(s@, id) == out@ + spec_vs_drop_lambda(s@.skip(i as int), id),
        decreases s@.len() - i,
    {
        let ghost rest = s@.skip(i as int);
        let ghost out0 = out@;
        proof {
            assert(rest[0] == s@[i as int]);
            assert(rest.drop_first() =~= s@.skip(i as int + 1));
        }
        let a = s[i];
        if a.lambda.0 != id.0 {
            out.push(a);
            proof {
                assert(a.lambda != id);
                assert(out@ =~= out0 + seq![a]);
                assert((out0 + seq![a]) + spec_vs_drop_lambda(rest.drop_first(), id) =~= out0 + (
                seq![a] + spec_vs_drop_lambda(rest.drop_first(), id)));
            }
        } else {
            proof {
                assert(a.lambda == id);
            }
        }
        i = i + 1;
    }
    proof {
        assert(s@.skip(s@.len() as int) =~= Seq::<VarAddr>::empty());
        assert(out@ + Seq::<VarAddr>::empty() =~= out@);
    }
    out
}

/// Information about one lambda: its arity, the lambda enclosing it, and the
/// set of addresses it captures, in order.
pub struct LambdaInfo {
    pub arity: usize,
    pub parent: Option<LambdaId>,
    pub captured: Vec<VarAddr>,
}

/// Information about one variable use: the lambda it occurs in and the
/// address it resolves to.
#[derive(Clone, Copy, PartialEq, Eq, Structural, Debug)]
pub struct UseInfo {
    pub lambda: Option<LambdaId>,
    pub referent: VarAddr,
}

/// The mathematical content of a [`LambdaInfo`].
#[verifier::ext_equal]
pub struct LambdaInfoV {
    pub arity: usize,
    pub parent: Option<LambdaId>,
    pub captured: Seq<VarAddr>,
}

impl View for LambdaInfo {
    type V = LambdaInfoV;

    open spec fn view(&self) -> LambdaInfoV {
        LambdaInfoV { arity: self.arity, parent: self.parent, captured: self.captured@ }
    }
}

/// What static analysis records of every lambda and every variable use.
pub struct CaptureMap {
    pub lambdas: IdVec<LambdaId, LambdaInfo>,
    pub uses: IdVec<UseId, UseInfo>,
}

/// The mathematical content of a [`CaptureMap`].
#[verifier::ext_equal]
pub struct CaptureMapV {
    pub lambdas: Seq<LambdaInfoV>,
    pub uses: Seq<UseInfo>,
}

impl CaptureMap {
    /// The mathematical content of the map.
    pub open spec fn deep_view(&self) -> CaptureMapV {
        CaptureMapV {
            lambdas: Seq::new(self.lambdas.0@.len(), |i: int| self.lambdas.0@[i]@),
            uses: self.uses.0@,
        }
    }

    /// An empty map.
    pub fn new() -> (r: CaptureMap)
        ensures
            r.deep_view() == (CaptureMapV { lambdas: Seq::<LambdaInfoV>::empty(), uses: Seq::<
                UseInfo,
            >::empty() }),
    {
        let r = CaptureMap { lambdas: IdVec::new(), uses: IdVec::new() };
        proof {
            assert(r.deep_view().lambdas =~= Seq::<LambdaInfoV>::empty());
        }
        r
    }
}

/// One entry of the scope stack: a lambda and its formal parameter names.
pub struct Scope {
    pub lambda: LambdaId,
    pub formals: Vec<String>,
}

/// The mathematical content of a [`Scope`].
#[verifier::ext_equal]
pub struct ScopeV {
    pub lambda: LambdaId,
    pub formals: Seq<Seq<char>>,
}

impl View for Scope {
    type V = ScopeV;

    open spec fn view(&self) -> ScopeV {
        ScopeV { lambda: self.lambda, formals: formals_view(self.formals@) }
    }
}

/// The walker that builds a [`CaptureMap`]: the map so far, the lambdas in
/// scope (outer before inner), and the addresses used so far within the
/// innermost lambda.
pub struct CaptureMapBuilder {
    pub map: CaptureMap,
    pub scopes: Vec<Scope>,
    pub captured: Vec<VarAddr>,
}

/// The mathematical content of a [`CaptureMapBuilder`].
#[verifier::ext_equal]
pub struct BuilderV {
    pub map: CaptureMapV,
    pub scopes: Seq<ScopeV>,
    pub captured: Seq<VarAddr>,
}

impl CaptureMapBuilder {
    /// The mathematical content of the builder.
    pub open spec fn deep_view(&self) -> BuilderV {
        BuilderV {
            map: self.map.deep_view(),
            scopes: Seq::new(self.scopes@.len(), |i: int| self.scopes@[i]@),
            captured: self.captured@,
        }
    }
}

/// The first formal with the given name, if any.
pub open spec fn spec_position(formals: Seq<Seq<char>>, name: Seq<char>) -> Option<int>
    decreases formals.len(),
{
    if formals.len() == 0 {
        None
    } else if formals[0] == name {
        Some(0)
    } else {
        match spec_position(formals.drop_first(), name) {
            Some(i) => Some(i + 1),
            None => None,
        }
    }
}

/// Resolve a name against the scope stack, innermost first.
pub open spec fn spec_find_var(scopes: Seq<ScopeV>, name: Seq<char>) -> Option<VarAddr>
    decreases scopes.len(),
{
    if scopes.len() == 0 {
        None
    } else {
        match spec_position(scopes.last().formals, name) {
            Some(i) => Some(VarAddr { lambda: scopes.last().lambda, index: i as usize }),
            None => spec_find_var(scopes.drop_last(), name),
        }
    }
}


/// Copy a vector of formal-parameter names.
pub fn copy_strings(v: &Vec<String>) -> (r: Vec<String>)
    ensures
        formals_view(r@) == formals_view(v@),
{
    let mut r: Vec<String> = Vec::new();
    let mut i: usize = 0;
    while i < v.len()
        invariant
            i <= v@.len(),
            r@.len() == i,
            forall|k: int| 0 <= k < i ==> #[trigger] r@[k]@ == v@[k]@,
        decreases v@.len() - i,
    {
        let s = v[i].clone();
        r.push(s);
        i = i + 1;
    }
    proof {
        assert(formals_view(r@) =~= formals_view(v@));
    }
    r
}

/// Copy a vector of variable addresses.
pub fn copy_addrs(v: &Vec<VarAddr>) -> (r: Vec<VarAddr>)
    ensures
        r@ == v@,
{
    let mut r: Vec<VarAddr> = Vec::new();
    let mut i: usize = 0;
    while i < v.len()
        invariant
            i <= v@.len(),
            r@ =~= v@.take(i as int),
        decreases v@.len() - i,
    {
        r.push(v[i]);
        proof {
            assert(r@ =~= v@.take(i as int + 1));
        }
        i = i + 1;
    }
    proof {
        assert(v@.take(v@.len() as int) =~= v@);
    }
    r
}

impl BuilderV {
    /// The lambda the traversal is currently inside, if any.
    pub open spec fn enclosing(self) -> Option<LambdaId> {
        if self.scopes.len() > 0 {
            Some(self.scopes.last().lambda)
        } else {
            None
        }
    }
}

/// What recording one lexical use does to the builder: resolve the name
/// innermost-first, record the use under its id (which must be the next
/// unassigned one), and mark the address used in the current capture frame.
pub open spec fn spec_capture_use(id: UseId, name: Seq<char>, st: BuilderV) -> Result<
    BuilderV,
    StaticErrorV,
> {
    match spec_find_var(st.scopes, name) {
        None => Err(StaticErrorV::UnboundVar { name }),
        Some(addr) => if id.0 == st.map.uses.len() {
            Ok(
                BuilderV {
                    map: CaptureMapV {
                        lambdas: st.map.lambdas,
                        uses: st.map.uses.push(
                            UseInfo { lambda: st.enclosing(), referent: addr },
                        ),
                    },
                    scopes: st.scopes,
                    captured: spec_vs_insert(st.captured, addr),
                }
            )
        } else {
            Err(StaticErrorV::Internal)
        },
    }
}

/// What entering a capture frame does: record the lambda under its id
/// (which must be the next unassigned one) with an empty capture set, bring
/// its formals into scope, and start a fresh used-address set.
pub open spec fn spec_enter_frame(
    id: LambdaId,
    formals: Seq<Seq<char>>,
    st: BuilderV,
) -> Result<BuilderV, StaticErrorV> {
    if id.0 == st.map.lambdas.len() {
        Ok(
            BuilderV {
                map: CaptureMapV {
                    lambdas: st.map.lambdas.push(
                        LambdaInfoV {
                            arity: formals.len() as usize,
                            parent: st.enclosing(),
                            captured: Seq::empty(),
                        },
                    ),
                    uses: st.map.uses,
                },
                scopes: st.scopes.push(ScopeV { lambda: id, formals }),
                captured: Seq::empty(),
            }
        )
    } else {
        Err(StaticErrorV::Internal)
    }
}

/// What leaving a capture frame does: drop the addresses the frame itself
/// binds, record the remainder as the frame's capture set, take the formals
/// back out of scope, and merge the remainder into the enclosing frame's
/// used set (`outer` is what that set was when the frame was entered).
pub open spec fn spec_leave_frame(id: LambdaId, outer: Seq<VarAddr>, st: BuilderV) -> Result<
    BuilderV,
    StaticErrorV,
> {
    let retained = spec_vs_drop_lambda(st.captured, id);
    if id.0 < st.map.lambdas.len() && st.scopes.len() >= 1 {
        Ok(
            BuilderV {
                map: CaptureMapV {
                    lambdas: st.map.lambdas.update(
                        id.0 as int,
                        LambdaInfoV {
                            arity: st.map.lambdas[id.0 as int].arity,
                            parent: st.map.lambdas[id.0 as int].parent,
                            captured: retained,
                        },
                    ),
                    uses: st.map.uses,
                },
                scopes: st.scopes.drop_last(),
                captured: spec_vs_union(outer, retained),
            }
        )
    } else {
        Err(StaticErrorV::Internal)
    }
}

/// The capture-map traversal of an expression: what the whole walk does to
/// the builder, or the static error it stops on.
pub open spec fn spec_capture_expr(e: ExprV, st: BuilderV) -> Result<BuilderV, StaticErrorV>
    decreases e,
{
    match e {
        ExprV::Number(_) => Ok(st),
        ExprV::String(_) => Ok(st),
        ExprV::StreamLiteral(elts) => spec_capture_exprs(elts, st),
        ExprV::Var(v) => match v {
            VarV::Lexical { id, name } => spec_capture_use(id, name, st),
            _ => Ok(st),
        },
        ExprV::App { arg, fun } => match spec_capture_expr(*arg, st) {
            Ok(st1) => spec_capture_expr(*fun, st1),
            Err(e1) => Err(e1),
        },
        ExprV::Lambda { id, formals, body } => match spec_enter_frame(id, formals, st) {
            Ok(st1) => match spec_capture_expr(*body, st1) {
                Ok(st2) => spec_leave_frame(id, st.captured, st2),
                Err(e1) => Err(e1),
            },
            Err(e1) => Err(e1),
        },
        ExprV::PredicateOp { id, stream, op, predicate } => {
            if id.0 == st.map.lambdas.len() {
                let st1 = BuilderV {
                    map: CaptureMapV {
                        lambdas: st.map.lambdas.push(
                            LambdaInfoV {
                                arity: 0,
                                parent: st.enclosing(),
                                captured: Seq::empty(),
                            },
                        ),
                        uses: st.map.uses,
                    },
                    scopes: st.scopes,
                    captured: st.captured,
                };
                match spec_capture_expr(*stream, st1) {
                    Ok(st2) => {
                        let st3 = BuilderV {
                            map: st2.map,
                            scopes: st2.scopes.push(ScopeV { lambda: id, formals: Seq::empty() }),
                            captured: Seq::empty(),
                        };
                        match spec_capture_pred(*predicate, st3) {
                            Ok(st4) => spec_leave_frame(id, st2.captured, st4),
                            Err(e1) => Err(e1),
                        }
                    },
                    Err(e1) => Err(e1),
                }
            } else {
                Err(StaticErrorV::Internal)
            }
        },
    }
}

/// The traversal of a stream literal's elements, left to right.
pub open spec fn spec_capture_exprs(s: Seq<ExprV>, st: BuilderV) -> Result<BuilderV, StaticErrorV>
    decreases s,
{
    if s.len() == 0 {
        Ok(st)
    } else {
        match spec_capture_expr(s[0], st) {
            Ok(st1) => spec_capture_exprs(s.drop_first(), st1),
            Err(e1) => Err(e1),
        }
    }
}

/// The capture-map traversal of a predicate.
pub open spec fn spec_capture_pred(p: PredicateV, st: BuilderV) -> Result<BuilderV, StaticErrorV>
    decreases p,
{
    match p {
        PredicateV::Expr(e) => spec_capture_expr(*e, st),
        PredicateV::Field(_, sub) => spec_capture_pred(*sub, st),
        PredicateV::Ends(sub) => spec_capture_pred(*sub, st),
        PredicateV::Any(sub) => spec_capture_pred(*sub, st),
        PredicateV::All(sub) => spec_capture_pred(*sub, st),
        PredicateV::Regex(_) => Ok(st),
        PredicateV::And(subs) => spec_capture_preds(subs, st),
        PredicateV::Or(subs) => spec_capture_preds(subs, st),
        PredicateV::Not(sub) => spec_capture_pred(*sub, st),
    }
}

/// The traversal of a junction's subterms, left to right.
pub open spec fn spec_capture_preds(s: Seq<PredicateV>, st: BuilderV) -> Result<
    BuilderV,
    StaticErrorV,
>
    decreases s,
{
    if s.len() == 0 {
        Ok(st)
    } else {
        match spec_capture_pred(s[0], st) {
            Ok(st1) => spec_capture_preds(s.drop_first(), st1),
            Err(e1) => Err(e1),
        }
    }
}

impl CaptureMapBuilder {
    /// A fresh builder over an empty map.
    pub fn new() -> (r: CaptureMapBuilder)
        ensures
            r.deep_view() == (BuilderV {
                map: CaptureMapV {
                    lambdas: Seq::<LambdaInfoV>::empty(),
                    uses: Seq::<UseInfo>::empty(),
                },
                scopes: Seq::<ScopeV>::empty(),
                captured: Seq::<VarAddr>::empty(),
            }),
    {
        let r = CaptureMapBuilder { map: CaptureMap::new(), scopes: Vec::new(), captured: Vec::new() };
        proof {
            assert(r.deep_view().scopes =~= Seq::<ScopeV>::empty());
        }
        r
    }

    /// The lambda the traversal is currently inside, if any.
    pub fn enclosing(&self) -> (r: Option<LambdaId>)
        ensures
            r == self.deep_view().enclosing(),
    {
        if self.scopes.len() > 0 {
            Some(self.scopes[self.scopes.len() - 1].lambda)
        } else {
            None
        }
    }

    /// Resolve a name against the scopes, innermost first. Mirrors
    /// [`spec_find_var`].
    #[verifier::loop_isolation(false)]
    pub fn find_var(&self, name: &String) -> (r: Option<VarAddr>)
        ensures
            r == spec_find_var(self.deep_view().scopes, name@),
    {
        let ghost scopes = self.deep_view().scopes;
        let mut s: usize = self.scopes.len();
        proof {
            assert(scopes.take(scopes.len() as int) =~= scopes);
        }
        while s > 0
            invariant
                s <= self.scopes@.len(),
                scopes == self.deep_view().scopes,
                spec_find_var(scopes, name@) == spec_find_var(scopes.take(s as int), name@),
            decreases s,
        {
            s = s - 1;
            let ghost sub = scopes.take(s as int + 1);
            proof {
                assert(sub.last() == scopes[s as int]);
                assert(sub.drop_last() =~= scopes.take(s as int));
            }
            let formals = &self.scopes[s].formals;
            let mut k: usize = 0;
            let ghost fv = scopes[s as int].formals;
            proof {
                assert(fv == formals_view(formals@));
                assert(fv.skip(0) =~= fv);
            }
            while k < formals.len()
                invariant
                    k <= formals@.len(),
                    fv == formals_view(formals@),
                    fv == scopes[s as int].formals,
                    s < self.scopes@.len(),
                    scopes == self.deep_view().scopes,
                    spec_position(fv, name@) == (match spec_position(fv.skip(k as int), name@) {
                        Some(i) => Some(i + k as int),
                        None => None,
                    }),
                decreases formals@.len() - k,
            {
                let ghost rest = fv.skip(k as int);
                proof {
                    assert(rest[0] == fv[k as int]);
                    assert(fv[k as int] == formals@[k as int]@);
                    assert(rest.drop_first() =~= fv.skip(k as int + 1));
                }
                if formals[k] == *name {
                    proof {
                        assert(rest[0] == name@);
                        assert(spec_position(rest, name@) == Some(0int));
                        assert(spec_position(fv, name@) == Some(k as int));
                        assert(spec_find_var(sub, name@) == Some(
                            VarAddr { lambda: scopes[s as int].lambda, index: k },
                        )) by {
                            assert(sub.len() > 0);
                            assert(sub.last() == scopes[s as int]);
                            assert(sub.last().formals == fv);
                            assert(spec_position(sub.last().formals, name@) == Some(k as int));
                            assert((k as int) as usize == k);
                        }
                        assert(self.scopes@[s as int]@.lambda == scopes[s as int].lambda);
                    }
                    return Some(VarAddr { lambda: self.scopes[s].lambda, index: k });
                }
                proof {
                    assert(rest[0] != name@);
                }
                k = k + 1;
            }
            proof {
                assert(fv.skip(formals@.len() as int) =~= Seq::<Seq<char>>::empty());
                assert(spec_position(fv, name@) is None);
                assert(spec_find_var(sub, name@) == spec_find_var(scopes.take(s as int), name@));
            }
        }
        proof {
            assert(scopes.take(0) =~= Seq::<ScopeV>::empty());
        }
        None
    }
}


impl CaptureMapBuilder {
    /// Enter a lambda's capture frame: record the lambda, bring its formals
    /// into scope, and hand back the enclosing frame's used-address set.
    /// Mirrors [`spec_enter_frame`].
    fn enter_frame(&mut self, id: LambdaId, formals: &Vec<String>) -> (r: Result<
        Vec<VarAddr>,
        StaticError,
    >)
        ensures
            match r {
                Ok(saved) => {
                    &&& spec_enter_frame(id, formals_view(formals@), old(self).deep_view())
                        == Ok::<BuilderV, StaticErrorV>(final(self).deep_view())
                    &&& saved@ == old(self).deep_view().captured
                },
                Err(e) => spec_enter_frame(id, formals_view(formals@), old(self).deep_view())
                    == Err::<BuilderV, StaticErrorV>(e@),
            },
    {
        if id.to_usize() != self.map.lambdas.len() {
            return Err(StaticError::Internal);
        }
        let enclosing = self.enclosing();
        let arity = formals.len();
        let ghost lams0 = self.deep_view().map.lambdas;
        let ghost scopes0 = self.deep_view().scopes;
        self.map.lambdas.push_at(id, LambdaInfo { arity, parent: enclosing, captured: Vec::new() });
        let fcopy = copy_strings(formals);
        self.scopes.push(Scope { lambda: id, formals: fcopy });
        let mut saved: Vec<VarAddr> = Vec::new();
        std::mem::swap(&mut saved, &mut self.captured);
        proof {
            assert(self.deep_view().map.lambdas =~= lams0.push(
                LambdaInfoV { arity, parent: enclosing, captured: Seq::empty() },
            ));
            assert(self.deep_view().scopes =~= scopes0.push(
                ScopeV { lambda: id, formals: formals_view(formals@) },
            ));
        }
        Ok(saved)
    }

    /// Enter a predicate-operator's capture frame: the operator's entry was
    /// already recorded; it binds no formals, but captures inside the
    /// predicate must see the outer scope through it.
    fn enter_predicate_frame(&mut self, id: LambdaId) -> (saved: Vec<VarAddr>)
        ensures
            final(self).deep_view() == (BuilderV {
                map: old(self).deep_view().map,
                scopes: old(self).deep_view().scopes.push(
                    ScopeV { lambda: id, formals: Seq::empty() },
                ),
                captured: Seq::<VarAddr>::empty(),
            }),
            saved@ == old(self).deep_view().captured,
    {
        let ghost scopes0 = self.deep_view().scopes;
        self.scopes.push(Scope { lambda: id, formals: Vec::new() });
        let mut saved: Vec<VarAddr> = Vec::new();
        std::mem::swap(&mut saved, &mut self.captured);
        proof {
            assert(formals_view(Seq::<String>::empty()) =~= Seq::<Seq<char>>::empty());
            assert(self.deep_view().scopes =~= scopes0.push(
                ScopeV { lambda: id, formals: Seq::empty() },
            ));
        }
        saved
    }

    /// Leave a capture frame: drop what the frame itself binds, record the
    /// remainder as its capture set, pop its scope, and merge the remainder
    /// into the enclosing frame's set. Mirrors [`spec_leave_frame`].
    fn leave_frame(&mut self, id: LambdaId, outer: Vec<VarAddr>) -> (r: Result<(), StaticError>)
        ensures
            match r {
                Ok(_) => spec_leave_frame(id, outer@, old(self).deep_view()) == Ok::<
                    BuilderV,
                    StaticErrorV,
                >(final(self).deep_view()),
                Err(e) => spec_leave_frame(id, outer@, old(self).deep_view()) == Err::<
                    BuilderV,
                    StaticErrorV,
                >(e@),
            },
    {
        if !(id.to_usize() < self.map.lambdas.len() && self.scopes.len() >= 1) {
            return Err(StaticError::Internal);
        }
        let ghost lams0 = self.deep_view().map.lambdas;
        let ghost scopes0 = self.deep_view().scopes;
        let retained = vs_drop_lambda(&self.captured, id);
        let i = id.to_usize();
        let (arity, parent) = {
            let entry = self.map.lambdas.get(id);
            (entry.arity, entry.parent)
        };
        let entry_cap = copy_addrs(&retained);
        self.map.lambdas.0.set(i, LambdaInfo { arity, parent, captured: entry_cap });
        let _ = self.scopes.pop();
        self.captured = outer;
        vs_union(&mut self.captured, &retained);
        proof {
            assert(self.deep_view().map.lambdas =~= lams0.update(
                id.0 as int,
                LambdaInfoV {
                    arity: lams0[id.0 as int].arity,
                    parent: lams0[id.0 as int].parent,
                    captured: retained@,
                },
            ));
            assert(self.deep_view().scopes =~= scopes0.drop_last());
        }
        Ok(())
    }

    /// Traverse an expression, recording every lambda, predicate operator,
    /// and lexical use. Mirrors [`spec_capture_expr`].
    #[verifier::loop_isolation(false)]
    pub fn walk_expr(&mut self, expr: &Expr) -> (r: Result<(), StaticError>)
        ensures
            match r {
                Ok(_) => spec_capture_expr(expr.deep_view(), old(self).deep_view()) == Ok::<
                    BuilderV,
                    StaticErrorV,
                >(final(self).deep_view()),
                Err(e) => spec_capture_expr(expr.deep_view(), old(self).deep_view()) == Err::<
                    BuilderV,
                    StaticErrorV,
                >(e@),
            },
        decreases expr,
    {
        let ghost st0 = self.deep_view();
        match expr {
            Expr::Number(_) => Ok(()),
            Expr::String(_) => Ok(()),
            Expr::Var(v) => match v {
                Var::Lexical { id, name } => {
                    match self.find_var(name) {
                        None => Err(StaticError::UnboundVar { name: name.clone() }),
                        Some(addr) => {
                            if id.to_usize() == self.map.uses.len() {
                                let enc = self.enclosing();
                                self.map.uses.push_at(
                                    *id,
                                    UseInfo { lambda: enc, referent: addr },
                                );
                                vs_insert(&mut self.captured, addr);
                                Ok(())
                            } else {
                                Err(StaticError::Internal)
                            }
                        },
                    }
                },
                _ => Ok(()),
            },
            Expr::StreamLiteral(elts) => {
                let ghost eview = crate::ast::deep_view_exprs(elts@);
                let mut i: usize = 0;
                proof {
                    assert(eview.skip(0) =~= eview);
                }
                while i < elts.len()
                    invariant
                        i <= elts@.len(),
                        spec_capture_exprs(eview, st0) == spec_capture_exprs(
                            eview.skip(i as int),
                            self.deep_view(),
                        ),
                    decreases elts@.len() - i,
                {
                    let ghost rest = eview.skip(i as int);
                    proof {
                        assert(rest[0] == eview[i as int]);
                        assert(eview[i as int] == elts@[i as int].deep_view());
                        assert(rest.drop_first() =~= eview.skip(i as int + 1));
                    }
                    match self.walk_expr(&elts[i]) {
                        Ok(_) => {},
                        Err(e) => {
                            return Err(e);
                        },
                    }
                    i = i + 1;
                }
                proof {
                    assert(eview.skip(elts@.len() as int) =~= Seq::<ExprV>::empty());
                }
                Ok(())
            },
            Expr::App { arg, fun } => {
                match self.walk_expr(arg) {
                    Ok(_) => {},
                    Err(e) => {
                        return Err(e);
                    },
                }
                self.walk_expr(fun)
            },
            Expr::Lambda { id, formals, body } => {
                let saved = match self.enter_frame(*id, formals) {
                    Ok(saved) => saved,
                    Err(e) => {
                        return Err(e);
                    },
                };
                match self.walk_expr(body) {
                    Ok(_) => {},
                    Err(e) => {
                        return Err(e);
                    },
                }
                self.leave_frame(*id, saved)
            },
            Expr::PredicateOp { id, stream, op, predicate } => {
                if id.to_usize() != self.map.lambdas.len() {
                    return Err(StaticError::Internal);
                }
                let enclosing = self.enclosing();
                let ghost lams0 = self.deep_view().map.lambdas;
                self.map.lambdas.push_at(
                    *id,
                    LambdaInfo { arity: 0, parent: enclosing, captured: Vec::new() },
                );
                proof {
                    assert(self.deep_view().map.lambdas =~= lams0.push(
                        LambdaInfoV { arity: 0, parent: enclosing, captured: Seq::empty() },
                    ));
                }
                match self.walk_expr(stream) {
                    Ok(_) => {},
                    Err(e) => {
                        return Err(e);
                    },
                }
                let saved = self.enter_predicate_frame(*id);
                match self.walk_predicate(predicate) {
                    Ok(_) => {},
                    Err(e) => {
                        return Err(e);
                    },
                }
                self.leave_frame(*id, saved)
            },
        }
    }

    /// Traverse a predicate. Mirrors [`spec_capture_pred`].
    #[verifier::loop_isolation(false)]
    pub fn walk_predicate(&mut self, predicate: &Predicate) -> (r: Result<(), StaticError>)
        ensures
            match r {
                Ok(_) => spec_capture_pred(predicate.deep_view(), old(self).deep_view()) == Ok::<
                    BuilderV,
                    StaticErrorV,
                >(final(self).deep_view()),
                Err(e) => spec_capture_pred(predicate.deep_view(), old(self).deep_view()) == Err::<
                    BuilderV,
                    StaticErrorV,
                >(e@),
            },
        decreases predicate,
    {
        let ghost st0 = self.deep_view();
        match predicate {
            Predicate::Expr(e) => self.walk_expr(e),
            Predicate::Field(_, sub) => self.walk_predicate(sub),
            Predicate::Ends(sub) => self.walk_predicate(sub),
            Predicate::Any(sub) => self.walk_predicate(sub),
            Predicate::All(sub) => self.walk_predicate(sub),
            Predicate::Regex(_) => Ok(()),
            Predicate::And(subs) => self.walk_predicates(subs),
            Predicate::Or(subs) => self.walk_predicates(subs),
            Predicate::Not(sub) => self.walk_predicate(sub),
        }
    }

    /// Traverse a junction's subterms, left to right. Mirrors
    /// [`spec_capture_preds`].
    #[verifier::loop_isolation(false)]
    fn walk_predicates(&mut self, subs: &Vec<Predicate>) -> (r: Result<(), StaticError>)
        ensures
            match r {
                Ok(_) => spec_capture_preds(
                    crate::ast::deep_view_predicates(subs@),
                    old(self).deep_view(),
                ) == Ok::<BuilderV, StaticErrorV>(final(self).deep_view()),
                Err(e) => spec_capture_preds(
                    crate::ast::deep_view_predicates(subs@),
                    old(self).deep_view(),
                ) == Err::<BuilderV, StaticErrorV>(e@),
            },
        decreases subs,
    {
        let ghost st0 = self.deep_view();
        let ghost pview = crate::ast::deep_view_predicates(subs@);
        let mut i: usize = 0;
        proof {
            assert(pview.skip(0) =~= pview);
        }
        while i < subs.len()
            invariant
                i <= subs@.len(),
                spec_capture_preds(pview, st0) == spec_capture_preds(
                    pview.skip(i as int),
                    self.deep_view(),
                ),
            decreases subs@.len() - i,
        {
            let ghost rest = pview.skip(i as int);
            proof {
                assert(rest[0] == pview[i as int]);
                assert(pview[i as int] == subs@[i as int].deep_view());
                assert(rest.drop_first() =~= pview.skip(i as int + 1));
            }
            match self.walk_predicate(&subs[i]) {
                Ok(_) => {},
                Err(e) => {
                    return Err(e);
                },
            }
            i = i + 1;
        }
        proof {
            assert(pview.skip(subs@.len() as int) =~= Seq::<PredicateV>::empty());
        }
        Ok(())
    }

    /// Finish the traversal: a top-level walk always ends with no scopes and
    /// no pending captures.
    pub fn build(self) -> (r: Option<CaptureMap>)
        ensures
            match r {
                Some(m) => {
                    &&& self.deep_view().scopes.len() == 0
                    &&& self.deep_view().captured.len() == 0
                    &&& m.deep_view() == self.deep_view().map
                },
                None => self.deep_view().scopes.len() != 0 || self.deep_view().captured.len()
                    != 0,
            },
    {
        if self.scopes.len() == 0 && self.captured.len() == 0 {
            Some(self.map)
        } else {
            None
        }
    }
}


/// Label assignment for an expression: every lambda and predicate operator
/// gets the next dense lambda id, every lexical use the next dense use id,
/// in pre-order, so a parent's id precedes its descendants'. `None` only if
/// a counter would overflow the machine's index type.
pub open spec fn spec_label_expr(e: ExprV, nl: int, nu: int) -> Option<(ExprV, int, int)>
    decreases e,
{
    match e {
        ExprV::Number(_) => Some((e, nl, nu)),
        ExprV::String(_) => Some((e, nl, nu)),
        ExprV::Var(v) => match v {
            VarV::Lexical { id, name } => if nu < usize::MAX {
                Some((ExprV::Var(VarV::Lexical { id: UseId(nu as usize), name }), nl, nu + 1))
            } else {
                None
            },
            _ => Some((e, nl, nu)),
        },
        ExprV::StreamLiteral(elts) => match spec_label_exprs(elts, Seq::empty(), nl, nu) {
            Some((elts2, nl2, nu2)) => Some((ExprV::StreamLiteral(elts2), nl2, nu2)),
            None => None,
        },
        ExprV::App { arg, fun } => match spec_label_expr(*arg, nl, nu) {
            Some((arg2, nl1, nu1)) => match spec_label_expr(*fun, nl1, nu1) {
                Some((fun2, nl2, nu2)) => Some(
                    (ExprV::App { arg: Box::new(arg2), fun: Box::new(fun2) }, nl2, nu2),
                ),
                None => None,
            },
            None => None,
        },
        ExprV::Lambda { id, formals, body } => if nl < usize::MAX {
            match spec_label_expr(*body, nl + 1, nu) {
                Some((body2, nl2, nu2)) => Some(
                    (
                        ExprV::Lambda {
                            id: LambdaId(nl as usize),
                            formals,
                            body: Box::new(body2),
                        },
                        nl2,
                        nu2,
                    ),
                ),
                None => None,
            }
        } else {
            None
        },
        ExprV::PredicateOp { id, stream, op, predicate } => if nl < usize::MAX {
            match spec_label_expr(*stream, nl + 1, nu) {
                Some((stream2, nl2, nu2)) => match spec_label_pred(*predicate, nl2, nu2) {
                    Some((pred2, nl3, nu3)) => Some(
                        (
                            ExprV::PredicateOp {
                                id: LambdaId(nl as usize),
                                stream: Box::new(stream2),
                                op,
                                predicate: Box::new(pred2),
                            },
                            nl3,
                            nu3,
                        ),
                    ),
                    None => None,
                },
                None => None,
            }
        } else {
            None
        },
    }
}

/// Label a stream literal's elements, left to right.
pub open spec fn spec_label_exprs(s: Seq<ExprV>, acc: Seq<ExprV>, nl: int, nu: int) -> Option<
    (Seq<ExprV>, int, int),
>
    decreases s,
{
    if s.len() == 0 {
        Some((acc, nl, nu))
    } else {
        match spec_label_expr(s[0], nl, nu) {
            Some((e2, nl1, nu1)) => spec_label_exprs(s.drop_first(), acc.push(e2), nl1, nu1),
            None => None,
        }
    }
}

/// Label assignment within a predicate.
pub open spec fn spec_label_pred(p: PredicateV, nl: int, nu: int) -> Option<(PredicateV, int, int)>
    decreases p,
{
    match p {
        PredicateV::Expr(e) => match spec_label_expr(*e, nl, nu) {
            Some((e2, nl1, nu1)) => Some((PredicateV::Expr(Box::new(e2)), nl1, nu1)),
            None => None,
        },
        PredicateV::Field(name, sub) => match spec_label_pred(*sub, nl, nu) {
            Some((s2, nl1, nu1)) => Some((PredicateV::Field(name, Box::new(s2)), nl1, nu1)),
            None => None,
        },
        PredicateV::Ends(sub) => match spec_label_pred(*sub, nl, nu) {
            Some((s2, nl1, nu1)) => Some((PredicateV::Ends(Box::new(s2)), nl1, nu1)),
            None => None,
        },
        PredicateV::Any(sub) => match spec_label_pred(*sub, nl, nu) {
            Some((s2, nl1, nu1)) => Some((PredicateV::Any(Box::new(s2)), nl1, nu1)),
            None => None,
        },
        PredicateV::All(sub) => match spec_label_pred(*sub, nl, nu) {
            Some((s2, nl1, nu1)) => Some((PredicateV::All(Box::new(s2)), nl1, nu1)),
            None => None,
        },
        PredicateV::Regex(_) => Some((p, nl, nu)),
        PredicateV::And(subs) => match spec_label_preds(subs, Seq::empty(), nl, nu) {
            Some((subs2, nl1, nu1)) => Some((PredicateV::And(subs2), nl1, nu1)),
            None => None,
        },
        PredicateV::Or(subs) => match spec_label_preds(subs, Seq::empty(), nl, nu) {
            Some((subs2, nl1, nu1)) => Some((PredicateV::Or(subs2), nl1, nu1)),
            None => None,
        },
        PredicateV::Not(sub) => match spec_label_pred(*sub, nl, nu) {
            Some((s2, nl1, nu1)) => Some((PredicateV::Not(Box::new(s2)), nl1, nu1)),
            None => None,
        },
    }
}

/// Label a junction's subterms, left to right.
pub open spec fn spec_label_preds(
    s: Seq<PredicateV>,
    acc: Seq<PredicateV>,
    nl: int,
    nu: int,
) -> Option<(Seq<PredicateV>, int, int)>
    decreases s,
{
    if s.len() == 0 {
        Some((acc, nl, nu))
    } else {
        match spec_label_pred(s[0], nl, nu) {
            Some((p2, nl1, nu1)) => spec_label_preds(s.drop_first(), acc.push(p2), nl1, nu1),
            None => None,
        }
    }
}

/// The walker that assigns a distinct dense label to each lambda, predicate
/// operator, and lexical use, in pre-order.
pub struct ExprLabeler {
    pub next_lambda: usize,
    pub next_use: usize,
}

impl ExprLabeler {
    /// A labeler starting both counters at zero.
    pub fn new() -> (r: ExprLabeler)
        ensures
            r.next_lambda == 0,
            r.next_use == 0,
    {
        ExprLabeler { next_lambda: 0, next_use: 0 }
    }

    /// Take the next lambda id.
    pub fn next_lambda(&mut self) -> (r: LambdaId)
        requires
            old(self).next_lambda < usize::MAX,
        ensures
            r == LambdaId(old(self).next_lambda),
            final(self).next_lambda == old(self).next_lambda + 1,
            final(self).next_use == old(self).next_use,
    {
        let next = self.next_lambda;
        self.next_lambda = next + 1;
        LambdaId(next)
    }

    /// Take the next use id.
    pub fn next_use(&mut self) -> (r: UseId)
        requires
            old(self).next_use < usize::MAX,
        ensures
            r == UseId(old(self).next_use),
            final(self).next_use == old(self).next_use + 1,
            final(self).next_lambda == old(self).next_lambda,
    {
        let next = self.next_use;
        self.next_use = next + 1;
        UseId(next)
    }

    /// How many lambda ids have been assigned.
    pub fn lambda_count(&self) -> (r: usize)
        ensures
            r == self.next_lambda,
    {
        self.next_lambda
    }

    /// How many use ids have been assigned.
    pub fn use_count(&self) -> (r: usize)
        ensures
            r == self.next_use,
    {
        self.next_use
    }

    /// Label an expression. Mirrors [`spec_label_expr`]; `None` only on
    /// counter overflow.
    #[verifier::loop_isolation(false)]
    pub fn walk_expr(&mut self, expr: &Expr) -> (r: Option<Expr>)
        ensures
            match r {
                Some(e2) => spec_label_expr(
                    expr.deep_view(),
                    old(self).next_lambda as int,
                    old(self).next_use as int,
                ) == Some(
                    (e2.deep_view(), final(self).next_lambda as int, final(self).next_use as int),
                ),
                None => spec_label_expr(
                    expr.deep_view(),
                    old(self).next_lambda as int,
                    old(self).next_use as int,
                ) is None,
            },
        decreases expr,
    {
        match expr {
            Expr::Number(n) => Some(Expr::Number(*n)),
            Expr::String(st) => Some(Expr::String(st.clone())),
            Expr::Var(v) => match v {
                Var::Lexical { id: _, name } => {
                    if self.next_use < usize::MAX {
                        let id = self.next_use();
                        Some(Expr::Var(Var::Lexical { id, name: name.clone() }))
                    } else {
                        None
                    }
                },
                Var::Edges => Some(Expr::Var(Var::Edges)),
                Var::First => Some(Expr::Var(Var::First)),
                Var::MapOp => Some(Expr::Var(Var::MapOp)),
                Var::Nodes => Some(Expr::Var(Var::Nodes)),
                Var::Paths => Some(Expr::Var(Var::Paths)),
                Var::Root => Some(Expr::Var(Var::Root)),
            },
            Expr::StreamLiteral(elts) => {
                let ghost eview = crate::ast::deep_view_exprs(elts@);
                let ghost nl0 = self.next_lambda as int;
                let ghost nu0 = self.next_use as int;
                let mut out: Vec<Expr> = Vec::new();
                let mut i: usize = 0;
                proof {
                    assert(eview.skip(0) =~= eview);
                    assert(crate::ast::deep_view_exprs(out@) =~= Seq::<ExprV>::empty());
                }
                while i < elts.len()
                    invariant
                        i <= elts@.len(),
                        spec_label_exprs(eview, Seq::empty(), nl0, nu0) == spec_label_exprs(
                            eview.skip(i as int),
                            crate::ast::deep_view_exprs(out@),
                            self.next_lambda as int,
                            self.next_use as int,
                        ),
                    decreases elts@.len() - i,
                {
                    let ghost rest = eview.skip(i as int);
                    let ghost acc0 = crate::ast::deep_view_exprs(out@);
                    proof {
                        assert(rest[0] == eview[i as int]);
                        assert(eview[i as int] == elts@[i as int].deep_view());
                        assert(rest.drop_first() =~= eview.skip(i as int + 1));
                    }
                    match self.walk_expr(&elts[i]) {
                        Some(e2) => {
                            out.push(e2);
                            proof {
                                assert(crate::ast::deep_view_exprs(out@) =~= acc0.push(
                                    out@[out@.len() - 1].deep_view(),
                                ));
                            }
                        },
                        None => {
                            return None;
                        },
                    }
                    i = i + 1;
                }
                proof {
                    assert(eview.skip(elts@.len() as int) =~= Seq::<ExprV>::empty());
                }
                Some(Expr::StreamLiteral(out))
            },
            Expr::App { arg, fun } => {
                let arg2 = match self.walk_expr(arg) {
                    Some(a) => a,
                    None => {
                        return None;
                    },
                };
                let fun2 = match self.walk_expr(fun) {
                    Some(f) => f,
                    None => {
                        return None;
                    },
                };
                Some(Expr::App { arg: Box::new(arg2), fun: Box::new(fun2) })
            },
            Expr::Lambda { id: _, formals, body } => {
                if self.next_lambda < usize::MAX {
                    let id = self.next_lambda();
                    let body2 = match self.walk_expr(body) {
                        Some(b) => b,
                        None => {
                            return None;
                        },
                    };
                    Some(
                        Expr::Lambda {
                            id,
                            formals: copy_strings(formals),
                            body: Box::new(body2),
                        },
                    )
                } else {
                    None
                }
            },
            Expr::PredicateOp { id: _, stream, op, predicate } => {
                if self.next_lambda < usize::MAX {
                    let id = self.next_lambda();
                    let stream2 = match self.walk_expr(stream) {
                        Some(st) => st,
                        None => {
                            return None;
                        },
                    };
                    let pred2 = match self.walk_pred(predicate) {
                        Some(p) => p,
                        None => {
                            return None;
                        },
                    };
                    Some(
                        Expr::PredicateOp {
                            id,
                            stream: Box::new(stream2),
                            op: *op,
                            predicate: Box::new(pred2),
                        },
                    )
                } else {
                    None
                }
            },
        }
    }

    /// Label a predicate. Mirrors [`spec_label_pred`].
    #[verifier::loop_isolation(false)]
    pub fn walk_pred(&mut self, predicate: &Predicate) -> (r: Option<Predicate>)
        ensures
            match r {
                Some(p2) => spec_label_pred(
                    predicate.deep_view(),
                    old(self).next_lambda as int,
                    old(self).next_use as int,
                ) == Some(
                    (p2.deep_view(), final(self).next_lambda as int, final(self).next_use as int),
                ),
                None => spec_label_pred(
                    predicate.deep_view(),
                    old(self).next_lambda as int,
                    old(self).next_use as int,
                ) is None,
            },
        decreases predicate,
    {
        match predicate {
            Predicate::Expr(e) => match self.walk_expr(e) {
                Some(e2) => Some(Predicate::Expr(e2)),
                None => None,
            },
            Predicate::Field(name, sub) => match self.walk_pred(sub) {
                Some(s2) => Some(Predicate::Field(name.clone(), Box::new(s2))),
                None => None,
            },
            Predicate::Ends(sub) => match self.walk_pred(sub) {
                Some(s2) => Some(Predicate::Ends(Box::new(s2))),
                None => None,
            },
            Predicate::Any(sub) => match self.walk_pred(sub) {
                Some(s2) => Some(Predicate::Any(Box::new(s2))),
                None => None,
            },
            Predicate::All(sub) => match self.walk_pred(sub) {
                Some(s2) => Some(Predicate::All(Box::new(s2))),
                None => None,
            },
            Predicate::Regex(pattern) => Some(Predicate::Regex(pattern.clone())),
            Predicate::And(subs) => match self.walk_preds(subs) {
                Some(s2) => Some(Predicate::And(s2)),
                None => None,
            },
            Predicate::Or(subs) => match self.walk_preds(subs) {
                Some(s2) => Some(Predicate::Or(s2)),
                None => None,
            },
            Predicate::Not(sub) => match self.walk_pred(sub) {
                Some(s2) => Some(Predicate::Not(Box::new(s2))),
                None => None,
            },
        }
    }

    /// Label a junction's subterms. Mirrors [`spec_label_preds`].
    #[verifier::loop_isolation(false)]
    fn walk_preds(&mut self, subs: &Vec<Predicate>) -> (r: Option<Vec<Predicate>>)
        ensures
            match r {
                Some(s2) => spec_label_preds(
                    crate::ast::deep_view_predicates(subs@),
                    Seq::empty(),
                    old(self).next_lambda as int,
                    old(self).next_use as int,
                ) == Some(
                    (
                        crate::ast::deep_view_predicates(s2@),
                        final(self).next_lambda as int,
                        final(self).next_use as int,
                    ),
                ),
                None => spec_label_preds(
                    crate::ast::deep_view_predicates(subs@),
                    Seq::empty(),
                    old(self).next_lambda as int,
                    old(self).next_use as int,
                ) is None,
            },
        decreases subs,
    {
        let ghost pview = crate::ast::deep_view_predicates(subs@);
        let ghost nl0 = self.next_lambda as int;
        let ghost nu0 = self.next_use as int;
        let mut out: Vec<Predicate> = Vec::new();
        let mut i: usize = 0;
        proof {
            assert(pview.skip(0) =~= pview);
            assert(crate::ast::deep_view_predicates(out@) =~= Seq::<PredicateV>::empty());
        }
        while i < subs.len()
            invariant
                i <= subs@.len(),
                spec_label_preds(pview, Seq::empty(), nl0, nu0) == spec_label_preds(
                    pview.skip(i as int),
                    crate::ast::deep_view_predicates(out@),
                    self.next_lambda as int,
                    self.next_use as int,
                ),
            decreases subs@.len() - i,
        {
            let ghost rest = pview.skip(i as int);
            let ghost acc0 = crate::ast::deep_view_predicates(out@);
            proof {
                assert(rest[0] == pview[i as int]);
                assert(pview[i as int] == subs@[i as int].deep_view());
                assert(rest.drop_first() =~= pview.skip(i as int + 1));
            }
            match self.walk_pred(&subs[i]) {
                Some(p2) => {
                    out.push(p2);
                    proof {
                        assert(crate::ast::deep_view_predicates(out@) =~= acc0.push(
                            out@[out@.len() - 1].deep_view(),
                        ));
                    }
                },
                None => {
                    return None;
                },
            }
            i = i + 1;
        }
        proof {
            assert(pview.skip(subs@.len() as int) =~= Seq::<PredicateV>::empty());
        }
        Some(out)
    }
}


/// For one lambda: how to build its closure's captured vector, and where
/// each of its visible variables lives in its own activation.
pub struct Layout {
    /// The lambda's arity: formal `i` lives at `Actual(i)`.
    pub arity: usize,
    /// The addresses the lambda captures, in capture-set order; the `k`-th
    /// lives at `Captured(k)`.
    pub captured_addrs: Vec<VarAddr>,
    /// For each captured address, where its value lives in the *parent's*
    /// activation; this is the closure's capture list.
    pub captured: Vec<VarLocation>,
}

/// The mathematical content of a [`Layout`].
#[verifier::ext_equal]
pub struct LayoutV {
    pub arity: usize,
    pub captured_addrs: Seq<VarAddr>,
    pub captured: Seq<VarLocation>,
}

impl View for Layout {
    type V = LayoutV;

    open spec fn view(&self) -> LayoutV {
        LayoutV {
            arity: self.arity,
            captured_addrs: self.captured_addrs@,
            captured: self.captured@,
        }
    }
}

/// The layout of every lambda, and for every variable use the location the
/// plan should read.
pub struct ClosureLayouts {
    pub lambdas: IdVec<LambdaId, Layout>,
    pub referents: IdVec<UseId, VarLocation>,
}

/// The mathematical content of a [`ClosureLayouts`].
#[verifier::ext_equal]
pub struct ClosureLayoutsV {
    pub lambdas: Seq<LayoutV>,
    pub referents: Seq<VarLocation>,
}

impl ClosureLayouts {
    /// The mathematical content of the layouts.
    pub open spec fn deep_view(&self) -> ClosureLayoutsV {
        ClosureLayoutsV {
            lambdas: Seq::new(self.lambdas.0@.len(), |i: int| self.lambdas.0@[i]@),
            referents: self.referents.0@,
        }
    }
}

/// The first position of an address in a capture set, if present.
pub open spec fn spec_addr_position(s: Seq<VarAddr>, a: VarAddr) -> Option<int>
    decreases s.len(),
{
    if s.len() == 0 {
        None
    } else if s[0] == a {
        Some(0)
    } else {
        match spec_addr_position(s.drop_first(), a) {
            Some(i) => Some(i + 1),
            None => None,
        }
    }
}

/// Where an address lives in the activation of the lambda `here` with the
/// given layout: its own formals are actuals, everything else must be in
/// its captured vector.
pub open spec fn spec_layout_lookup(layout: LayoutV, here: LambdaId, a: VarAddr) -> Option<
    VarLocation,
> {
    if a.lambda == here {
        if a.index < layout.arity {
            Some(VarLocation::Actual(a.index))
        } else {
            None
        }
    } else {
        match spec_addr_position(layout.captured_addrs, a) {
            Some(k) => Some(VarLocation::Captured(k as usize)),
            None => None,
        }
    }
}

/// Where each captured address lives in the parent's activation.
pub open spec fn spec_capture_locs(
    parent: LayoutV,
    parent_id: LambdaId,
    addrs: Seq<VarAddr>,
) -> Option<Seq<VarLocation>>
    decreases addrs.len(),
{
    if addrs.len() == 0 {
        Some(Seq::empty())
    } else {
        match spec_capture_locs(parent, parent_id, addrs.drop_last()) {
            Some(s) => match spec_layout_lookup(parent, parent_id, addrs.last()) {
                Some(loc) => Some(s.push(loc)),
                None => None,
            },
            None => None,
        }
    }
}

/// Lay lambdas out in id order, parents before children: a top-level lambda
/// must capture nothing; a nested one's parent must already be laid out and
/// must have a home for everything the child captures.
pub open spec fn spec_build_layouts(lams: Seq<LambdaInfoV>, k: int, acc: Seq<LayoutV>) -> Option<
    Seq<LayoutV>,
>
    decreases lams.len() - k,
{
    if k < 0 || k > lams.len() {
        None
    } else if k == lams.len() {
        Some(acc)
    } else {
        let info = lams[k];
        match info.parent {
            None => if info.captured.len() == 0 {
                spec_build_layouts(
                    lams,
                    k + 1,
                    acc.push(
                        LayoutV {
                            arity: info.arity,
                            captured_addrs: Seq::empty(),
                            captured: Seq::empty(),
                        },
                    ),
                )
            } else {
                None
            },
            Some(p) => if p.0 < k && acc.len() == k {
                match spec_capture_locs(acc[p.0 as int], p, info.captured) {
                    Some(locs) => spec_build_layouts(
                        lams,
                        k + 1,
                        acc.push(
                            LayoutV {
                                arity: info.arity,
                                captured_addrs: info.captured,
                                captured: locs,
                            },
                        ),
                    ),
                    None => None,
                }
            } else {
                None
            },
        }
    }
}

/// Resolve each variable use to the location the plan should read, through
/// its enclosing lambda's layout. References outside any lambda are global
/// variables, which the language leaves unimplemented.
pub open spec fn spec_build_referents(
    uses: Seq<UseInfo>,
    layouts: Seq<LayoutV>,
    k: int,
    acc: Seq<VarLocation>,
) -> Option<Seq<VarLocation>>
    decreases uses.len() - k,
{
    if k < 0 || k > uses.len() {
        None
    } else if k == uses.len() {
        Some(acc)
    } else {
        match uses[k].lambda {
            None => None,
            Some(l) => if l.0 < layouts.len() {
                match spec_layout_lookup(layouts[l.0 as int], l, uses[k].referent) {
                    Some(loc) => spec_build_referents(uses, layouts, k + 1, acc.push(loc)),
                    None => None,
                }
            } else {
                None
            },
        }
    }
}

/// The layouts a capture map determines, if it is consistent.
pub open spec fn spec_layouts_of(cm: CaptureMapV) -> Option<ClosureLayoutsV> {
    match spec_build_layouts(cm.lambdas, 0, Seq::empty()) {
        Some(ls) => match spec_build_referents(cm.uses, ls, 0, Seq::empty()) {
            Some(refs) => Some(ClosureLayoutsV { lambdas: ls, referents: refs }),
            None => None,
        },
        None => None,
    }
}

/// Find an address in a capture set. Mirrors [`spec_addr_position`].
#[verifier::loop_isolation(false)]
pub fn addr_position(s: &Vec<VarAddr>, a: &VarAddr) -> (r: Option<usize>)
    ensures
        match r {
            Some(k) => spec_addr_position(s@, *a) == Some(k as int),
            None => spec_addr_position(s@, *a) is None,
        },
{
    let ghost sv = s@;
    let mut k: usize = 0;
    proof {
        assert(sv.skip(0) =~= sv);
    }
    while k < s.len()
        invariant
            k <= sv.len(),
            spec_addr_position(sv, *a) == (match spec_addr_position(sv.skip(k as int), *a) {
                Some(i) => Some(i + k as int),
                None => None,
            }),
        decreases sv.len() - k,
    {
        let ghost rest = sv.skip(k as int);
        proof {
            assert(rest[0] == sv[k as int]);
            assert(rest.drop_first() =~= sv.skip(k as int + 1));
        }
        let here = s[k];
        if here.lambda.0 == a.lambda.0 && here.index == a.index {
            proof {
                assert(rest[0] == *a);
                assert(spec_addr_position(rest, *a) == Some(0int));
            }
            return Some(k);
        }
        proof {
            assert(rest[0] != *a);
        }
        k = k + 1;
    }
    proof {
        assert(sv.skip(sv.len() as int) =~= Seq::<VarAddr>::empty());
    }
    None
}

/// Look an address up in a lambda's layout. Mirrors [`spec_layout_lookup`].
pub fn layout_lookup(layout: &Layout, here: LambdaId, a: &VarAddr) -> (r: Option<VarLocation>)
    ensures
        r == spec_layout_lookup(layout@, here, *a),
{
    if a.lambda.0 == here.0 {
        if a.index < layout.arity {
            Some(VarLocation::Actual(a.index))
        } else {
            None
        }
    } else {
        match addr_position(&layout.captured_addrs, a) {
            Some(k) => Some(VarLocation::Captured(k)),
            None => None,
        }
    }
}

impl ClosureLayouts {
    /// Choose each lambda's closure layout and resolve each variable use.
    /// Mirrors [`spec_layouts_of`]; `None` exactly when the map is not one
    /// a whole-program analysis produces.
    #[verifier::loop_isolation(false)]
    pub fn from_capture_map(cm: CaptureMap) -> (r: Option<ClosureLayouts>)
        ensures
            match r {
                Some(ls) => spec_layouts_of(cm.deep_view()) == Some(ls.deep_view()),
                None => spec_layouts_of(cm.deep_view()) is None,
            },
    {
        let ghost lamsv = cm.deep_view().lambdas;
        let mut lambdas: IdVec<LambdaId, Layout> = IdVec::new();
        let mut k: usize = 0;
        proof {
            assert(Seq::new(lambdas.0@.len(), |i: int| lambdas.0@[i]@) =~= Seq::<
                LayoutV,
            >::empty());
        }
        while k < cm.lambdas.len()
            invariant
                k <= lamsv.len(),
                lambdas.0@.len() == k,
                spec_build_layouts(lamsv, 0, Seq::empty()) == spec_build_layouts(
                    lamsv,
                    k as int,
                    Seq::new(lambdas.0@.len(), |i: int| lambdas.0@[i]@),
                ),
            decreases lamsv.len() - k,
        {
            let ghost acc0 = Seq::new(lambdas.0@.len(), |i: int| lambdas.0@[i]@);
            let info = cm.lambdas.get(LambdaId(k));
            proof {
                assert(info@ == lamsv[k as int]);
            }
            let layout: Layout = match info.parent {
                None => {
                    if info.captured.len() == 0 {
                        Layout { arity: info.arity, captured_addrs: Vec::new(), captured: Vec::new() }
                    } else {
                        return None;
                    }
                },
                Some(p) => {
                    if p.0 < k {
                        let parent_layout = lambdas.get(p);
                        proof {
                            assert(parent_layout@ == acc0[p.0 as int]);
                        }
                        let mut locs: Vec<VarLocation> = Vec::new();
                        let mut j: usize = 0;
                        proof {
                            assert(spec_capture_locs(
                                parent_layout@,
                                p,
                                info.captured@.take(0),
                            ) =~= Some(Seq::<VarLocation>::empty()));
                        }
                        while j < info.captured.len()
                            invariant
                                j <= info.captured@.len(),
                                spec_capture_locs(
                                    parent_layout@,
                                    p,
                                    info.captured@.take(j as int),
                                ) == Some(locs@),
                            decreases info.captured@.len() - j,
                        {
                            let ghost prefix = info.captured@.take(j as int);
                            proof {
                                let next = info.captured@.take(j as int + 1);
                                assert(next.drop_last() =~= prefix);
                                assert(next.last() == info.captured@[j as int]);
                            }
                            match layout_lookup(parent_layout, p, &info.captured[j]) {
                                Some(loc) => {
                                    locs.push(loc);
                                },
                                None => {
                                    proof {
                                        lemma_capture_locs_prefix_none(
                                            parent_layout@,
                                            p,
                                            info.captured@,
                                            j as int + 1,
                                        );
                                    }
                                    return None;
                                },
                            }
                            j = j + 1;
                        }
                        proof {
                            assert(info.captured@.take(info.captured@.len() as int)
                                =~= info.captured@);
                        }
                        Layout {
                            arity: info.arity,
                            captured_addrs: copy_addrs(&info.captured),
                            captured: locs,
                        }
                    } else {
                        return None;
                    }
                },
            };
            lambdas.push_at(LambdaId(k), layout);
            proof {
                assert(Seq::new(lambdas.0@.len(), |i: int| lambdas.0@[i]@) =~= acc0.push(
                    lambdas.0@[lambdas.0@.len() - 1]@,
                ));
            }
            k = k + 1;
        }
        let ghost layoutsv = Seq::new(lambdas.0@.len(), |i: int| lambdas.0@[i]@);
        let mut referents: IdVec<UseId, VarLocation> = IdVec::new();
        let mut u: usize = 0;
        let ghost usesv = cm.deep_view().uses;
        while u < cm.uses.len()
            invariant
                u <= usesv.len(),
                referents.0@.len() == u,
                layoutsv == Seq::new(lambdas.0@.len(), |i: int| lambdas.0@[i]@),
                spec_build_referents(usesv, layoutsv, 0, Seq::empty()) == spec_build_referents(
                    usesv,
                    layoutsv,
                    u as int,
                    referents.0@,
                ),
            decreases usesv.len() - u,
        {
            let use_info = *cm.uses.get(UseId(u));
            proof {
                assert(use_info == usesv[u as int]);
            }
            match use_info.lambda {
                None => {
                    return None;
                },
                Some(l) => {
                    if l.0 < lambdas.len() {
                        let layout = lambdas.get(l);
                        proof {
                            assert(layout@ == layoutsv[l.0 as int]);
                        }
                        match layout_lookup(layout, l, &use_info.referent) {
                            Some(loc) => {
                                referents.push_at(UseId(u), loc);
                            },
                            None => {
                                return None;
                            },
                        }
                    } else {
                        return None;
                    }
                },
            }
            u = u + 1;
        }
        Some(ClosureLayouts { lambdas, referents })
    }
}

/// A failed prefix fails the whole capture-location list.
proof fn lemma_capture_locs_prefix_none(
    parent: LayoutV,
    parent_id: LambdaId,
    addrs: Seq<VarAddr>,
    k: int,
)
    requires
        0 <= k <= addrs.len(),
        spec_capture_locs(parent, parent_id, addrs.take(k)) is None,
    ensures
        spec_capture_locs(parent, parent_id, addrs) is None,
    decreases addrs.len() - k,
{
    if k < addrs.len() {
        let next = addrs.take(k + 1);
        assert(next.drop_last() =~= addrs.take(k));
        lemma_capture_locs_prefix_none(parent, parent_id, addrs, k + 1);
    } else {
        assert(addrs.take(k) =~= addrs);
    }
}

/// Statically determined information needed for planning: the closure
/// layouts and use resolutions of one analyzed expression.
pub struct StaticAnalysis(pub ClosureLayouts);

/// The whole static pipeline on an expression: label assignment, capture
/// analysis, and closure layout. Yields the labeled expression and the
/// layouts, or the static error the analysis stopped on.
pub open spec fn spec_static_analysis(e: ExprV) -> Result<(ExprV, ClosureLayoutsV), StaticErrorV> {
    match spec_label_expr(e, 0, 0) {
        None => Err(StaticErrorV::Internal),
        Some((labeled, _, _)) => {
            let st0 = BuilderV {
                map: CaptureMapV {
                    lambdas: Seq::<LambdaInfoV>::empty(),
                    uses: Seq::<UseInfo>::empty(),
                },
                scopes: Seq::<ScopeV>::empty(),
                captured: Seq::<VarAddr>::empty(),
            };
            match spec_capture_expr(labeled, st0) {
                Err(e1) => Err(e1),
                Ok(st) => if st.scopes.len() == 0 && st.captured.len() == 0 {
                    match spec_layouts_of(st.map) {
                        Some(ls) => Ok((labeled, ls)),
                        None => Err(StaticErrorV::Internal),
                    }
                } else {
                    Err(StaticErrorV::Internal)
                },
            }
        },
    }
}

impl StaticAnalysis {
    /// Analyze an expression: label it, map its captures, and lay its
    /// closures out. Mirrors [`spec_static_analysis`]; yields the labeled
    /// expression alongside the analysis.
    pub fn from_expr(expr: &Expr) -> (r: Result<(Expr, StaticAnalysis), StaticError>)
        ensures
            match r {
                Ok((labeled, analysis)) => spec_static_analysis(expr.deep_view()) == Ok::<
                    (ExprV, ClosureLayoutsV),
                    StaticErrorV,
                >((labeled.deep_view(), analysis.0.deep_view())),
                Err(e) => spec_static_analysis(expr.deep_view()) == Err::<
                    (ExprV, ClosureLayoutsV),
                    StaticErrorV,
                >(e@),
            },
    {
        let mut labeler = ExprLabeler::new();
        let labeled = match labeler.walk_expr(expr) {
            Some(labeled) => labeled,
            None => {
                return Err(StaticError::Internal);
            },
        };
        let mut builder = CaptureMapBuilder::new();
        match builder.walk_expr(&labeled) {
            Ok(_) => {},
            Err(e) => {
                return Err(e);
            },
        }
        let cm = match builder.build() {
            Some(cm) => cm,
            None => {
                return Err(StaticError::Internal);
            },
        };
        match ClosureLayouts::from_capture_map(cm) {
            Some(layouts) => Ok((labeled, StaticAnalysis(layouts))),
            None => Err(StaticError::Internal),
        }
    }

    /// The capture list of the lambda with the given id: how to gather its
    /// closure's captured vector from the enclosing activation.
    pub fn get_capture_list(&self, id: LambdaId) -> (r: CaptureList)
        requires
            id.0 < self.0.deep_view().lambdas.len(),
        ensures
            r.0@ == self.0.deep_view().lambdas[id.0 as int].captured,
    {
        let layout = self.0.lambdas.get(id);
        let mut v: Vec<VarLocation> = Vec::new();
        let mut i: usize = 0;
        while i < layout.captured.len()
            invariant
                i <= layout.captured@.len(),
                v@ =~= layout.captured@.take(i as int),
            decreases layout.captured@.len() - i,
        {
            v.push(layout.captured[i]);
            proof {
                assert(v@ =~= layout.captured@.take(i as int + 1));
            }
            i = i + 1;
        }
        proof {
            assert(layout.captured@.take(layout.captured@.len() as int) =~= layout.captured@);
        }
        CaptureList(v)
    }

    /// How many lambdas the analysis covers.
    pub fn lambda_limit(&self) -> (r: usize)
        ensures
            r == self.0.deep_view().lambdas.len(),
    {
        self.0.lambdas.len()
    }

    /// How many variable uses the analysis covers.
    pub fn use_limit(&self) -> (r: usize)
        ensures
            r == self.0.deep_view().referents.len(),
    {
        self.0.referents.len()
    }
}

/// The plan for one lexical variable use: a read of the location analysis
/// resolved the use to.
pub fn plan_lexical(id: UseId, _name: &str, analysis: &StaticAnalysis) -> (r: crate::run::Plan)
    requires
        id.0 < analysis.0.deep_view().referents.len(),
    ensures
        r.deep_view() == (match analysis.0.deep_view().referents[id.0 as int] {
            VarLocation::Actual(i) => crate::run::PlanV::Actual(i),
            VarLocation::Captured(i) => crate::run::PlanV::Captured(i),
        }),
{
    match *analysis.0.referents.get(id) {
        VarLocation::Actual(i) => crate::run::Plan::Actual(i),
        VarLocation::Captured(i) => crate::run::Plan::Captured(i),
    }
}

/// The plan for a generic application: evaluate the argument, evaluate the
/// function, call it.
pub fn plan_activation(arg: crate::run::Plan, fun: crate::run::Plan) -> (r: crate::run::Plan)
    ensures
        r.deep_view() == (crate::run::PlanV::Call {
            arg: Box::new(arg.deep_view()),
            fun: Box::new(fun.deep_view()),
        }),
{
    crate::run::Plan::Call { arg: Box::new(arg), fun: Box::new(fun) }
}

} // verus!





