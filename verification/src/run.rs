//! Query execution strategies: the plan tree the planner produces and the
//! interpreter that executes it against a snapshot.

use vstd::prelude::*;
use std::rc::Rc;
use crate::ast::{deep_view_exprs, deep_view_predicates, esize, psize, sum_esize, sum_psize, Expr, ExprV, LambdaId, Predicate, PredicateV, PredicateOp, Var, VarV};
use crate::ast::{lemma_esize_pos, lemma_psize_pos, lemma_sum_psize_add, lemma_sum_psize_elem, lemma_sum_psize_split};
use crate::fun::{plan_activation, plan_lexical, CaptureList, ClosureLayoutsV, StaticAnalysis, VarLocation};
use crate::breadth_first::{spec_bfs_next, BfsV, StepV};
use crate::dump::{DumpV, EdgeV, NodeV};
use crate::fun::ActivationV;
use crate::print::{spec_one_byte_text, spec_two_byte_text};
use crate::query::{StaticError, StaticErrorV};
use crate::shim::regex_matches;
use crate::value::{spec_kind_name, CallableV, Error, ErrorV, Value, ValueV};
use crate::value::{deep_view_items, deep_view_value_vec, deep_view_values};
use crate::stream::{Stream, StreamItem, StreamV};
use crate::dump::{CoarseType, Edge, Node, NodeId};
use crate::fun::Activation;
use crate::print::{one_byte_text, two_byte_text};
use crate::query::Context;
use crate::shim::regex_compiles;

verus! {

/// The reserved operators that evaluate to first-class function values.
/// Direct applications of `edges`, `first` and `paths` are specialized by
/// the planner; these cover the general case, and `map`.
#[derive(Clone, Copy, PartialEq, Eq, Structural, Debug)]
pub enum BuiltinFn {
    /// One argument: the stream of a node's edges.
    Edges,
    /// One argument: the first element of a stream.
    First,
    /// One argument: the shortest-path streams from a node or node stream.
    Paths,
    /// Two arguments: a stream and a function to apply to each element.
    MapFn,
}

impl BuiltinFn {
    /// How many arguments the built-in expects.
    pub open spec fn spec_arity(self) -> usize {
        match self {
            BuiltinFn::MapFn => 2usize,
            _ => 1usize,
        }
    }

    /// How many arguments the built-in expects.
    pub fn arity(&self) -> (r: usize)
        ensures
            r == self.spec_arity(),
    {
        match self {
            BuiltinFn::MapFn => 2,
            _ => 1,
        }
    }
}


/// A required id found in a conjunction leaves a strictly smaller remainder
/// to plan, and a strictly smaller id expression.
pub proof fn lemma_required_id_size(p: PredicateV)
    ensures
        spec_required_id(p) matches Some((e, rest)) ==> crate::ast::esize(e) < crate::ast::psize(p)
            && crate::ast::sum_psize(rest) < crate::ast::psize(p),
    decreases p, 1int,
{
    match p {
        PredicateV::And(subs) => {
            lemma_required_id_in_size(subs, 0);
            if spec_required_id_in(subs, 0) is Some {
                let (k, e, child_rest) = spec_required_id_in(subs, 0)->Some_0;
                lemma_sum_psize_elem(subs, k);
                lemma_sum_psize_split(subs, k);
                assert(subs.skip(k)[0] == subs[k]);
                assert(subs.skip(k).drop_first() =~= subs.skip(k + 1));
                assert(sum_psize(subs.skip(k)) == psize(subs[k]) + sum_psize(subs.skip(k + 1)));
                lemma_sum_psize_add(subs.take(k) + child_rest, subs.skip(k + 1));
                lemma_sum_psize_add(subs.take(k), child_rest);
                assert(sum_psize(spec_splice(subs, k, child_rest)) == sum_psize(subs.take(k))
                    + sum_psize(child_rest) + sum_psize(subs.skip(k + 1)));
            }
        },
        PredicateV::Field(name, sub) => {
            if name == "id"@ {
                match *sub {
                    PredicateV::Expr(e) => {
                        assert(psize(*sub) == 1 + esize(*e));
                        assert(sum_psize(Seq::<PredicateV>::empty()) == 0);
                    },
                    _ => {},
                }
            }
        },
        _ => {},
    }
}

/// Size bounds for the search across a conjunction's subterms.
pub proof fn lemma_required_id_in_size(subs: Seq<PredicateV>, k: int)
    requires
        0 <= k,
    ensures
        spec_required_id_in(subs, k) matches Some((j, e, child_rest)) ==> {
            &&& k <= j < subs.len()
            &&& crate::ast::esize(e) < crate::ast::psize(subs[j])
            &&& crate::ast::sum_psize(child_rest) < crate::ast::psize(subs[j])
        },
    decreases subs, subs.len() - k,
{
    if k < subs.len() {
        lemma_required_id_size(subs[k]);
        if spec_required_id(subs[k]) is None {
            lemma_required_id_in_size(subs, k + 1);
        }
    }
}

/// The planning of a predicate: either a predicate plan, or the answer the
/// predicate always gives. A regex leaf must compile; `find` and `until`
/// are not implemented.
pub open spec fn spec_plan_predicate(p: PredicateV, a: ClosureLayoutsV) -> Result<
    PlanOrTrivialV,
    StaticErrorV,
>
    decreases psize(p), 0int,
{
    match p {
        PredicateV::Expr(e) => match spec_plan_expr(*e, a) {
            Ok(ep) => Ok(PlanOrTrivialV::Plan(PredicatePlanV::Equal(Box::new(ep)))),
            Err(er) => Err(er),
        },
        PredicateV::Field(name, sub) => match spec_plan_predicate(*sub, a) {
            Ok(PlanOrTrivialV::Plan(sp)) => Ok(
                PlanOrTrivialV::Plan(
                    PredicatePlanV::Field { field_name: name, predicate: Box::new(sp) },
                ),
            ),
            Ok(PlanOrTrivialV::Trivial(b)) => Ok(PlanOrTrivialV::Trivial(b)),
            Err(er) => Err(er),
        },
        PredicateV::Ends(sub) => match spec_plan_predicate(*sub, a) {
            Ok(PlanOrTrivialV::Plan(sp)) => Ok(
                PlanOrTrivialV::Plan(PredicatePlanV::Ends(Box::new(sp))),
            ),
            Ok(PlanOrTrivialV::Trivial(b)) => Ok(PlanOrTrivialV::Trivial(b)),
            Err(er) => Err(er),
        },
        PredicateV::Any(sub) => match spec_plan_predicate(*sub, a) {
            Ok(PlanOrTrivialV::Plan(sp)) => Ok(
                PlanOrTrivialV::Plan(PredicatePlanV::Any(Box::new(sp))),
            ),
            Ok(PlanOrTrivialV::Trivial(false)) => Ok(PlanOrTrivialV::Trivial(false)),
            Ok(PlanOrTrivialV::Trivial(true)) => Ok(PlanOrTrivialV::Plan(PredicatePlanV::NonEmpty)),
            Err(er) => Err(er),
        },
        PredicateV::All(sub) => match spec_plan_predicate(*sub, a) {
            Ok(PlanOrTrivialV::Plan(sp)) => Ok(
                PlanOrTrivialV::Plan(PredicatePlanV::All(Box::new(sp))),
            ),
            Ok(PlanOrTrivialV::Trivial(true)) => Ok(PlanOrTrivialV::Trivial(true)),
            Ok(PlanOrTrivialV::Trivial(false)) => Ok(PlanOrTrivialV::Plan(PredicatePlanV::Empty)),
            Err(er) => Err(er),
        },
        PredicateV::Regex(pattern) => if regex_compiles(pattern) {
            Ok(PlanOrTrivialV::Plan(PredicatePlanV::Regex(pattern)))
        } else {
            Err(StaticErrorV::Parse(pattern))
        },
        PredicateV::And(subs) => spec_plan_junction(subs, true, a, Seq::empty()),
        PredicateV::Or(subs) => spec_plan_junction(subs, false, a, Seq::empty()),
        PredicateV::Not(sub) => match spec_plan_predicate(*sub, a) {
            Ok(PlanOrTrivialV::Plan(sp)) => Ok(
                PlanOrTrivialV::Plan(PredicatePlanV::Not(Box::new(sp))),
            ),
            Ok(PlanOrTrivialV::Trivial(b)) => Ok(PlanOrTrivialV::Trivial(!b)),
            Err(er) => Err(er),
        },
    }
}

/// Junction folding, left to right: a subterm trivially equal to the
/// junction's consonant is dropped; one trivially equal to the dissonant
/// short-circuits the whole junction to the dissonant, planning nothing
/// further; if no subterm remains, the junction is trivially consonant.
pub open spec fn spec_plan_junction(
    subs: Seq<PredicateV>,
    consonant: bool,
    a: ClosureLayoutsV,
    acc: Seq<PredicatePlanV>,
) -> Result<PlanOrTrivialV, StaticErrorV>
    decreases sum_psize(subs), 1int,
        via spec_plan_junction_decreases
{
    if subs.len() == 0 {
        if acc.len() == 0 {
            Ok(PlanOrTrivialV::Trivial(consonant))
        } else {
            Ok(
                PlanOrTrivialV::Plan(
                    if consonant {
                        PredicatePlanV::And(acc)
                    } else {
                        PredicatePlanV::Or(acc)
                    },
                ),
            )
        }
    } else {
        match spec_plan_predicate(subs[0], a) {
            Err(er) => Err(er),
            Ok(PlanOrTrivialV::Trivial(b)) => if b == consonant {
                spec_plan_junction(subs.drop_first(), consonant, a, acc)
            } else {
                Ok(PlanOrTrivialV::Trivial(!consonant))
            },
            Ok(PlanOrTrivialV::Plan(p)) => spec_plan_junction(
                subs.drop_first(),
                consonant,
                a,
                acc.push(p),
            ),
        }
    }
}

#[via_fn]
proof fn spec_plan_junction_decreases(
    subs: Seq<PredicateV>,
    consonant: bool,
    a: ClosureLayoutsV,
    acc: Seq<PredicatePlanV>,
) {
    if subs.len() > 0 {
        lemma_psize_pos(subs[0]);
    }
}

/// The planning of a filter: if the stream is the `nodes` primitive and the
/// predicate requires a specific id, look that id up directly and keep only
/// the remainder of the predicate; a trivially true predicate leaves the
/// stream unfiltered; a trivially false one plans the empty stream.
pub open spec fn spec_plan_filter(
    id: LambdaId,
    stream: ExprV,
    predicate: PredicateV,
    a: ClosureLayoutsV,
) -> Result<PlanV, StaticErrorV>
    decreases esize(stream) + psize(predicate), 2int,
        via spec_plan_filter_decreases
{
    let parts = if stream == ExprV::Var(VarV::Nodes) {
        match spec_required_id(predicate) {
            Some((id_expr, rest)) => match spec_plan_expr(id_expr, a) {
                Ok(idp) => match spec_plan_junction(rest, true, a, Seq::empty()) {
                    Ok(pot) => Ok((PlanV::NodesById(Box::new(idp)), pot)),
                    Err(er) => Err(er),
                },
                Err(er) => Err(er),
            },
            None => match spec_plan_predicate(predicate, a) {
                Ok(pot) => Ok((PlanV::Nodes, pot)),
                Err(er) => Err(er),
            },
        }
    } else {
        match spec_plan_expr(stream, a) {
            Ok(sp) => match spec_plan_predicate(predicate, a) {
                Ok(pot) => Ok((sp, pot)),
                Err(er) => Err(er),
            },
            Err(er) => Err(er),
        }
    };
    match parts {
        Err(er) => Err(er),
        Ok((stream_plan, pot)) => match pot {
            PlanOrTrivialV::Trivial(true) => Ok(stream_plan),
            PlanOrTrivialV::Trivial(false) => Ok(PlanV::StreamLiteral(Seq::empty())),
            PlanOrTrivialV::Plan(fp) => if id.0 < a.lambdas.len() {
                Ok(
                    PlanV::Filter {
                        stream: Box::new(stream_plan),
                        capture_list: a.lambdas[id.0 as int].captured,
                        filter: Box::new(fp),
                    },
                )
            } else {
                Err(StaticErrorV::Internal)
            },
        },
    }
}

#[via_fn]
proof fn spec_plan_filter_decreases(
    id: LambdaId,
    stream: ExprV,
    predicate: PredicateV,
    a: ClosureLayoutsV,
) {
    lemma_esize_pos(stream);
    lemma_psize_pos(predicate);
    lemma_required_id_size(predicate);
}

/// The planning of a variable reference: reserved names become primitives or
/// first-class built-ins; lexical references become reads of the location
/// the analysis resolved them to.
pub open spec fn spec_plan_var(v: VarV, a: ClosureLayoutsV) -> Result<PlanV, StaticErrorV> {
    match v {
        VarV::Root => Ok(PlanV::Root),
        VarV::Nodes => Ok(PlanV::Nodes),
        VarV::Edges => Ok(PlanV::Builtin(BuiltinFn::Edges)),
        VarV::First => Ok(PlanV::Builtin(BuiltinFn::First)),
        VarV::Paths => Ok(PlanV::Builtin(BuiltinFn::Paths)),
        VarV::MapOp => Ok(PlanV::Builtin(BuiltinFn::MapFn)),
        VarV::Lexical { id, name } => if id.0 < a.referents.len() {
            Ok(
                match a.referents[id.0 as int] {
                    VarLocation::Actual(i) => PlanV::Actual(i),
                    VarLocation::Captured(i) => PlanV::Captured(i),
                },
            )
        } else {
            Err(StaticErrorV::Internal)
        },
    }
}

/// The planning of an expression. Applications of the reserved names
/// `edges`, `first` and `paths` are specialized to their primitives; the
/// `find` and `until` operators are not implemented.
pub open spec fn spec_plan_expr(e: ExprV, a: ClosureLayoutsV) -> Result<PlanV, StaticErrorV>
    decreases esize(e), 0int,
{
    match e {
        ExprV::Number(n) => Ok(PlanV::ConstNumber(n)),
        ExprV::String(s) => Ok(PlanV::ConstString(s)),
        ExprV::StreamLiteral(elts) => match spec_plan_exprs(elts, a, Seq::empty()) {
            Ok(ps) => Ok(PlanV::StreamLiteral(ps)),
            Err(er) => Err(er),
        },
        ExprV::Var(v) => spec_plan_var(v, a),
        ExprV::Lambda { id, formals, body } => if id.0 < a.lambdas.len() {
            match spec_plan_expr(*body, a) {
                Ok(bp) => Ok(
                    PlanV::Lambda {
                        name: "anonymous"@,
                        arity: formals.len() as usize,
                        body: Box::new(bp),
                        capture_list: a.lambdas[id.0 as int].captured,
                    },
                ),
                Err(er) => Err(er),
            }
        } else {
            Err(StaticErrorV::Internal)
        },
        ExprV::App { arg, fun } => match spec_plan_expr(*arg, a) {
            Err(er) => Err(er),
            Ok(argp) => match *fun {
                ExprV::Var(VarV::Edges) => Ok(PlanV::Edges(Box::new(argp))),
                ExprV::Var(VarV::First) => Ok(PlanV::First(Box::new(argp))),
                ExprV::Var(VarV::Paths) => Ok(PlanV::Paths(Box::new(argp))),
                _ => match spec_plan_expr(*fun, a) {
                    Ok(funp) => Ok(
                        PlanV::Call { arg: Box::new(argp), fun: Box::new(funp) },
                    ),
                    Err(er) => Err(er),
                },
            },
        },
        ExprV::PredicateOp { id, stream, op, predicate } => match op {
            PredicateOp::Filter => spec_plan_filter(id, *stream, *predicate, a),
            _ => Err(StaticErrorV::Internal),
        },
    }
}

/// Plan a stream literal's elements, left to right.
pub open spec fn spec_plan_exprs(s: Seq<ExprV>, a: ClosureLayoutsV, acc: Seq<PlanV>) -> Result<
    Seq<PlanV>,
    StaticErrorV,
>
    decreases sum_esize(s), 1int,
        via spec_plan_exprs_decreases
{
    if s.len() == 0 {
        Ok(acc)
    } else {
        match spec_plan_expr(s[0], a) {
            Ok(p) => spec_plan_exprs(s.drop_first(), a, acc.push(p)),
            Err(er) => Err(er),
        }
    }
}


#[via_fn]
proof fn spec_plan_exprs_decreases(s: Seq<ExprV>, a: ClosureLayoutsV, acc: Seq<PlanV>) {
    if s.len() > 0 {
        lemma_esize_pos(s[0]);
    }
}


/// Plan a variable reference. Mirrors [`spec_plan_var`].
pub fn plan_var(var: &Var, analysis: &StaticAnalysis) -> (r: Result<Plan, StaticError>)
    ensures
        match r {
            Ok(p) => spec_plan_var(var@, analysis.0.deep_view()) == Ok::<PlanV, StaticErrorV>(
                p.deep_view(),
            ),
            Err(e) => spec_plan_var(var@, analysis.0.deep_view()) == Err::<PlanV, StaticErrorV>(
                e@,
            ),
        },
{
    match var {
        Var::Root => Ok(Plan::Root),
        Var::Nodes => Ok(Plan::Nodes),
        Var::Edges => Ok(Plan::Builtin(BuiltinFn::Edges)),
        Var::First => Ok(Plan::Builtin(BuiltinFn::First)),
        Var::Paths => Ok(Plan::Builtin(BuiltinFn::Paths)),
        Var::MapOp => Ok(Plan::Builtin(BuiltinFn::MapFn)),
        Var::Lexical { id, name } => {
            if id.0 < analysis.use_limit() {
                Ok(plan_lexical(*id, name.as_str(), analysis))
            } else {
                Err(StaticError::Internal)
            }
        },
    }
}

/// Given an expression, a plan that will evaluate it. Mirrors
/// [`spec_plan_expr`].
#[verifier::loop_isolation(false)]
pub fn plan_expr(expr: &Expr, analysis: &StaticAnalysis) -> (r: Result<Plan, StaticError>)
    ensures
        match r {
            Ok(p) => spec_plan_expr(expr.deep_view(), analysis.0.deep_view()) == Ok::<
                PlanV,
                StaticErrorV,
            >(p.deep_view()),
            Err(e) => spec_plan_expr(expr.deep_view(), analysis.0.deep_view()) == Err::<
                PlanV,
                StaticErrorV,
            >(e@),
        },
    decreases esize(expr.deep_view()), 3int,
{
    let ghost a = analysis.0.deep_view();
    match expr {
        Expr::Number(n) => Ok(Plan::ConstNumber(*n)),
        Expr::String(st) => Ok(Plan::ConstString(st.clone())),
        Expr::Var(v) => plan_var(v, analysis),
        Expr::StreamLiteral(elts) => {
            let ghost eview = deep_view_exprs(elts@);
            let mut out: Vec<Plan> = Vec::new();
            let mut i: usize = 0;
            proof {
                assert(eview.skip(0) =~= eview);
                assert(deep_view_plans(out@) =~= Seq::<PlanV>::empty());
            }
            while i < elts.len()
                invariant
                    i <= elts@.len(),
                    spec_plan_exprs(eview, a, Seq::empty()) == spec_plan_exprs(
                        eview.skip(i as int),
                        a,
                        deep_view_plans(out@),
                    ),
                decreases elts@.len() - i,
            {
                let ghost rest = eview.skip(i as int);
                let ghost acc0 = deep_view_plans(out@);
                proof {
                    assert(rest[0] == eview[i as int]);
                    assert(eview[i as int] == elts@[i as int].deep_view());
                    assert(rest.drop_first() =~= eview.skip(i as int + 1));
                    crate::ast::lemma_sum_esize_elem(eview, i as int);
                }
                match plan_expr(&elts[i], analysis) {
                    Ok(p) => {
                        out.push(p);
                        proof {
                            assert(deep_view_plans(out@) =~= acc0.push(
                                out@[out@.len() - 1].deep_view(),
                            ));
                        }
                    },
                    Err(e) => {
                        return Err(e);
                    },
                }
                i = i + 1;
            }
            proof {
                assert(eview.skip(elts@.len() as int) =~= Seq::<ExprV>::empty());
            }
            Ok(Plan::StreamLiteral(out))
        },
        Expr::Lambda { id, formals, body } => plan_lambda(*id, formals, body, analysis),
        Expr::App { arg, fun } => {
            let argp = match plan_expr(arg, analysis) {
                Ok(p) => p,
                Err(e) => {
                    return Err(e);
                },
            };
            match &**fun {
                Expr::Var(Var::Edges) => Ok(Plan::Edges(Box::new(argp))),
                Expr::Var(Var::First) => Ok(Plan::First(Box::new(argp))),
                Expr::Var(Var::Paths) => Ok(Plan::Paths(Box::new(argp))),
                _ => {
                    let funp = match plan_expr(fun, analysis) {
                        Ok(p) => p,
                        Err(e) => {
                            return Err(e);
                        },
                    };
                    Ok(plan_activation(argp, funp))
                },
            }
        },
        Expr::PredicateOp { id, stream, op, predicate } => match op {
            PredicateOp::Filter => plan_filter(*id, stream, predicate, analysis),
            _ => Err(StaticError::Internal),
        },
    }
}

/// Plan a lambda: its body's plan, its arity, and the capture list analysis
/// chose for it.
pub fn plan_lambda(
    id: LambdaId,
    formals: &Vec<String>,
    body: &Expr,
    analysis: &StaticAnalysis,
) -> (r: Result<Plan, StaticError>)
    ensures
        match r {
            Ok(p) => spec_plan_expr(
                ExprV::Lambda {
                    id,
                    formals: crate::ast::formals_view(formals@),
                    body: Box::new(body.deep_view()),
                },
                analysis.0.deep_view(),
            ) == Ok::<PlanV, StaticErrorV>(p.deep_view()),
            Err(e) => spec_plan_expr(
                ExprV::Lambda {
                    id,
                    formals: crate::ast::formals_view(formals@),
                    body: Box::new(body.deep_view()),
                },
                analysis.0.deep_view(),
            ) == Err::<PlanV, StaticErrorV>(e@),
        },
    decreases esize(body.deep_view()), 4int,
{
    if id.0 < analysis.lambda_limit() {
        let bp = match plan_expr(body, analysis) {
            Ok(p) => p,
            Err(e) => {
                return Err(e);
            },
        };
        Ok(
            Plan::Lambda {
                name: "anonymous".to_owned(),
                arity: formals.len(),
                body: Rc::new(bp),
                capture_list: analysis.get_capture_list(id),
            },
        )
    } else {
        Err(StaticError::Internal)
    }
}

/// Plan a filter. Mirrors [`spec_plan_filter`].
pub fn plan_filter(
    id: LambdaId,
    stream: &Expr,
    predicate: &Predicate,
    analysis: &StaticAnalysis,
) -> (r: Result<Plan, StaticError>)
    ensures
        match r {
            Ok(p) => spec_plan_filter(
                id,
                stream.deep_view(),
                predicate.deep_view(),
                analysis.0.deep_view(),
            ) == Ok::<PlanV, StaticErrorV>(p.deep_view()),
            Err(e) => spec_plan_filter(
                id,
                stream.deep_view(),
                predicate.deep_view(),
                analysis.0.deep_view(),
            ) == Err::<PlanV, StaticErrorV>(e@),
        },
    decreases esize(stream.deep_view()) + psize(predicate.deep_view()), 2int,
{
    let ghost a = analysis.0.deep_view();
    let is_nodes = match stream {
        Expr::Var(Var::Nodes) => true,
        _ => false,
    };
    let parts: (Plan, PlanOrTrivial) = if is_nodes {
        match find_predicate_required_id(predicate) {
            Some((id_expr, rest)) => {
                proof {
                    lemma_required_id_size(predicate.deep_view());
                    lemma_esize_pos(stream.deep_view());
                }
                let idp = match plan_expr(id_expr, analysis) {
                    Ok(p) => p,
                    Err(e) => {
                        return Err(e);
                    },
                };
                let pot = match plan_junction(&rest, true, analysis) {
                    Ok(pot) => pot,
                    Err(e) => {
                        return Err(e);
                    },
                };
                (Plan::NodesById(Box::new(idp)), pot)
            },
            None => {
                proof {
                    lemma_esize_pos(stream.deep_view());
                }
                let pot = match plan_predicate(predicate, analysis) {
                    Ok(pot) => pot,
                    Err(e) => {
                        return Err(e);
                    },
                };
                (Plan::Nodes, pot)
            },
        }
    } else {
        proof {
            lemma_psize_pos(predicate.deep_view());
            lemma_esize_pos(stream.deep_view());
        }
        let sp = match plan_expr(stream, analysis) {
            Ok(p) => p,
            Err(e) => {
                return Err(e);
            },
        };
        let pot = match plan_predicate(predicate, analysis) {
            Ok(pot) => pot,
            Err(e) => {
                return Err(e);
            },
        };
        (sp, pot)
    };
    let (stream_plan, pot) = parts;
    match pot {
        PlanOrTrivial::Trivial(b) => {
            if b {
                Ok(stream_plan)
            } else {
                let empty: Vec<Plan> = Vec::new();
                proof {
                    assert(deep_view_plans(empty@) =~= Seq::<PlanV>::empty());
                }
                Ok(Plan::StreamLiteral(empty))
            }
        },
        PlanOrTrivial::Plan(fp) => {
            if id.0 < analysis.lambda_limit() {
                Ok(
                    Plan::Filter {
                        stream: Box::new(stream_plan),
                        capture_list: analysis.get_capture_list(id),
                        filter: Rc::new(fp),
                    },
                )
            } else {
                Err(StaticError::Internal)
            }
        },
    }
}

/// Plan a predicate. Mirrors [`spec_plan_predicate`].
pub fn plan_predicate(predicate: &Predicate, analysis: &StaticAnalysis) -> (r: Result<
    PlanOrTrivial,
    StaticError,
>)
    ensures
        match r {
            Ok(pot) => spec_plan_predicate(predicate.deep_view(), analysis.0.deep_view()) == Ok::<
                PlanOrTrivialV,
                StaticErrorV,
            >(pot.deep_view()),
            Err(e) => spec_plan_predicate(predicate.deep_view(), analysis.0.deep_view()) == Err::<
                PlanOrTrivialV,
                StaticErrorV,
            >(e@),
        },
    decreases psize(predicate.deep_view()), 0int,
{
    let ghost a = analysis.0.deep_view();
    match predicate {
        Predicate::Expr(e) => match plan_expr(e, analysis) {
            Ok(ep) => Ok(PlanOrTrivial::Plan(PredicatePlan::Equal(Box::new(ep)))),
            Err(er) => Err(er),
        },
        Predicate::Field(name, sub) => match plan_predicate(sub, analysis) {
            Ok(PlanOrTrivial::Plan(sp)) => Ok(
                PlanOrTrivial::Plan(
                    PredicatePlan::Field { field_name: name.clone(), predicate: Box::new(sp) },
                ),
            ),
            Ok(PlanOrTrivial::Trivial(b)) => Ok(PlanOrTrivial::Trivial(b)),
            Err(er) => Err(er),
        },
        Predicate::Ends(sub) => match plan_predicate(sub, analysis) {
            Ok(PlanOrTrivial::Plan(sp)) => Ok(
                PlanOrTrivial::Plan(PredicatePlan::Ends(Box::new(sp))),
            ),
            Ok(PlanOrTrivial::Trivial(b)) => Ok(PlanOrTrivial::Trivial(b)),
            Err(er) => Err(er),
        },
        Predicate::Any(sub) => match plan_predicate(sub, analysis) {
            Ok(PlanOrTrivial::Plan(sp)) => Ok(
                PlanOrTrivial::Plan(PredicatePlan::Any(Box::new(sp))),
            ),
            Ok(PlanOrTrivial::Trivial(b)) => {
                if b {
                    Ok(PlanOrTrivial::Plan(PredicatePlan::NonEmpty))
                } else {
                    Ok(PlanOrTrivial::Trivial(false))
                }
            },
            Err(er) => Err(er),
        },
        Predicate::All(sub) => match plan_predicate(sub, analysis) {
            Ok(PlanOrTrivial::Plan(sp)) => Ok(
                PlanOrTrivial::Plan(PredicatePlan::All(Box::new(sp))),
            ),
            Ok(PlanOrTrivial::Trivial(b)) => {
                if b {
                    Ok(PlanOrTrivial::Trivial(true))
                } else {
                    Ok(PlanOrTrivial::Plan(PredicatePlan::Empty))
                }
            },
            Err(er) => Err(er),
        },
        Predicate::Regex(pattern) => {
            if crate::shim::regex_check(pattern.as_str()) {
                Ok(PlanOrTrivial::Plan(PredicatePlan::Regex(pattern.clone())))
            } else {
                Err(StaticError::Parse(pattern.clone()))
            }
        },
        Predicate::And(subs) => {
            let refs = predicate_refs(subs);
            proof {
                assert(deep_view_predicate_refs(refs@) =~= deep_view_predicates(subs@));
            }
            plan_junction(&refs, true, analysis)
        },
        Predicate::Or(subs) => {
            let refs = predicate_refs(subs);
            proof {
                assert(deep_view_predicate_refs(refs@) =~= deep_view_predicates(subs@));
            }
            plan_junction(&refs, false, analysis)
        },
        Predicate::Not(sub) => match plan_predicate(sub, analysis) {
            Ok(PlanOrTrivial::Plan(sp)) => Ok(
                PlanOrTrivial::Plan(PredicatePlan::Not(Box::new(sp))),
            ),
            Ok(PlanOrTrivial::Trivial(b)) => Ok(PlanOrTrivial::Trivial(!b)),
            Err(er) => Err(er),
        },
    }
}

/// Borrow each subterm of a junction.
fn predicate_refs(subs: &Vec<Predicate>) -> (r: Vec<&Predicate>)
    ensures
        r@.len() == subs@.len(),
        forall|i: int| 0 <= i < r@.len() ==> #[trigger] r@[i].deep_view() == subs@[i].deep_view(),
{
    let mut r: Vec<&Predicate> = Vec::new();
    let mut i: usize = 0;
    while i < subs.len()
        invariant
            i <= subs@.len(),
            r@.len() == i,
            forall|k: int| 0 <= k < i ==> #[trigger] r@[k].deep_view() == subs@[k].deep_view(),
        decreases subs@.len() - i,
    {
        r.push(&subs[i]);
        i = i + 1;
    }
    r
}

/// Plan a junction's subterms with the given consonant. Mirrors
/// [`spec_plan_junction`].
#[verifier::loop_isolation(false)]
pub fn plan_junction(subs: &Vec<&Predicate>, consonant: bool, analysis: &StaticAnalysis) -> (r:
    Result<PlanOrTrivial, StaticError>)
    ensures
        match r {
            Ok(pot) => spec_plan_junction(
                deep_view_predicate_refs(subs@),
                consonant,
                analysis.0.deep_view(),
                Seq::empty(),
            ) == Ok::<PlanOrTrivialV, StaticErrorV>(pot.deep_view()),
            Err(e) => spec_plan_junction(
                deep_view_predicate_refs(subs@),
                consonant,
                analysis.0.deep_view(),
                Seq::empty(),
            ) == Err::<PlanOrTrivialV, StaticErrorV>(e@),
        },
    decreases sum_psize(deep_view_predicate_refs(subs@)), 1int,
{
    let ghost a = analysis.0.deep_view();
    let ghost full = deep_view_predicate_refs(subs@);
    let mut plans: Vec<PredicatePlan> = Vec::new();
    let mut i: usize = 0;
    proof {
        assert(full.skip(0) =~= full);
        assert(deep_view_predicate_plans(plans@) =~= Seq::<PredicatePlanV>::empty());
    }
    while i < subs.len()
        invariant
            i <= subs@.len(),
            spec_plan_junction(full, consonant, a, Seq::empty()) == spec_plan_junction(
                full.skip(i as int),
                consonant,
                a,
                deep_view_predicate_plans(plans@),
            ),
        decreases subs@.len() - i,
    {
        let ghost rest = full.skip(i as int);
        let ghost acc0 = deep_view_predicate_plans(plans@);
        proof {
            assert(rest[0] == full[i as int]);
            assert(full[i as int] == subs@[i as int].deep_view());
            assert(rest.drop_first() =~= full.skip(i as int + 1));
            lemma_sum_psize_elem(full, i as int);
        }
        match plan_predicate(subs[i], analysis) {
            Err(e) => {
                return Err(e);
            },
            Ok(PlanOrTrivial::Trivial(b)) => {
                if b != consonant {
                    return Ok(PlanOrTrivial::Trivial(!consonant));
                }
            },
            Ok(PlanOrTrivial::Plan(p)) => {
                plans.push(p);
                proof {
                    assert(deep_view_predicate_plans(plans@) =~= acc0.push(
                        plans@[plans@.len() - 1].deep_view(),
                    ));
                }
            },
        }
        i = i + 1;
    }
    proof {
        assert(full.skip(subs@.len() as int) =~= Seq::<PredicateV>::empty());
    }
    if plans.len() == 0 {
        Ok(PlanOrTrivial::Trivial(consonant))
    } else {
        if consonant {
            Ok(PlanOrTrivial::Plan(PredicatePlan::And(plans)))
        } else {
            Ok(PlanOrTrivial::Plan(PredicatePlan::Or(plans)))
        }
    }
}


/// Equality between run-time values, as the equality predicate tests it:
/// numbers and strings by content, edges by referent and name, nodes by id;
/// streams and functions are never equal.
pub open spec fn spec_value_eq(a: ValueV, b: ValueV) -> bool {
    match (a, b) {
        (ValueV::Number(x), ValueV::Number(y)) => x == y,
        (ValueV::String(x), ValueV::String(y)) => x == y,
        (ValueV::Edge(x), ValueV::Edge(y)) => x.referent == y.referent && x.name == y.name,
        (ValueV::Node(x), ValueV::Node(y)) => x.id == y.id,
        _ => false,
    }
}

/// The display name of a coarse type.
pub open spec fn spec_coarse_name(c: crate::dump::CoarseType) -> Seq<char> {
    match c {
        crate::dump::CoarseType::Other => "Other"@,
        crate::dump::CoarseType::Object => "Object"@,
        crate::dump::CoarseType::Script => "Script"@,
        crate::dump::CoarseType::String => "String"@,
        crate::dump::CoarseType::DOMNode => "DOMNode"@,
    }
}

/// A node's field as the field predicate sees it: absent optional fields
/// yield nothing, string attributes yield their decoded text, and an unknown
/// field name is an error.
pub open spec fn spec_get_node_field(n: NodeV, name: Seq<char>) -> Result<Option<ValueV>, ErrorV> {
    if name == "id"@ {
        Ok(Some(ValueV::Number(n.id)))
    } else if name == "size"@ {
        Ok(
            match n.size {
                Some(s) => Some(ValueV::Number(s)),
                None => None,
            },
        )
    } else if name == "coarseType"@ {
        Ok(Some(ValueV::String(spec_coarse_name(n.coarseType))))
    } else if name == "typeName"@ {
        Ok(
            match n.typeName {
                Some(u) => Some(ValueV::String(spec_two_byte_text(u))),
                None => None,
            },
        )
    } else if name == "JSObjectClassName"@ {
        Ok(
            match n.JSObjectClassName {
                Some(b) => Some(ValueV::String(spec_one_byte_text(b))),
                None => None,
            },
        )
    } else if name == "scriptFilename"@ {
        Ok(
            match n.scriptFilename {
                Some(b) => Some(ValueV::String(spec_one_byte_text(b))),
                None => None,
            },
        )
    } else if name == "descriptiveTypeName"@ {
        Ok(
            match n.descriptiveTypeName {
                Some(u) => Some(ValueV::String(spec_two_byte_text(u))),
                None => None,
            },
        )
    } else {
        Err(ErrorV::NoSuchField { value_kind: "nodes"@, field: name })
    }
}

/// An edge's field as the field predicate sees it.
pub open spec fn spec_get_edge_field(e: EdgeV, name: Seq<char>) -> Result<Option<ValueV>, ErrorV> {
    if name == "referent"@ {
        Ok(
            match e.referent {
                Some(r) => Some(ValueV::Number(r)),
                None => None,
            },
        )
    } else if name == "name"@ {
        Ok(
            match e.name {
                Some(u) => Some(ValueV::String(spec_two_byte_text(u))),
                None => None,
            },
        )
    } else {
        Err(ErrorV::NoSuchField { value_kind: "edges"@, field: name })
    }
}

/// The last value of a stream's remaining items, or the error met reaching
/// for it; `None` of an exhausted stream.
pub open spec fn spec_stream_last(
    items: Seq<Result<ValueV, ErrorV>>,
    pos: int,
) -> Result<Option<ValueV>, ErrorV>
    decreases items.len() - pos,
{
    if pos < 0 || pos >= items.len() {
        Ok(None)
    } else {
        match items[pos] {
            Err(e) => Err(e),
            Ok(v) => match spec_stream_last(items, pos + 1) {
                Ok(None) => Ok(Some(v)),
                other => other,
            },
        }
    }
}

/// The stream of a node's edges, in declaration order.
pub open spec fn spec_edges_value(v: ValueV) -> Result<ValueV, ErrorV> {
    match v {
        ValueV::Node(n) => Ok(
            ValueV::Stream(
                StreamV {
                    items: Seq::new(n.edges.len(), |i: int| Ok(ValueV::Edge(n.edges[i]))),
                    pos: 0,
                },
            ),
        ),
        _ => Err(ErrorV::Type { expected: "node"@, actual: spec_kind_name(v) }),
    }
}

/// The first element of a stream; an exhausted stream is an error.
pub open spec fn spec_first_value(v: ValueV) -> Result<ValueV, ErrorV> {
    match v {
        ValueV::Stream(s) => {
            let (_, step) = s.step();
            match step {
                Ok(Some(x)) => Ok(x),
                Ok(None) => Err(ErrorV::EmptyStream),
                Err(e) => Err(e),
            }
        },
        _ => Err(ErrorV::Type { expected: "stream"@, actual: spec_kind_name(v) }),
    }
}

/// The stream of all the snapshot's nodes, in the snapshot's order.
pub open spec fn spec_nodes_value(dump: DumpV) -> ValueV {
    ValueV::Stream(
        StreamV {
            items: Seq::new(dump.nodes.len(), |i: int| Ok(ValueV::Node(dump.nodes[i]))),
            pos: 0,
        },
    )
}

/// The node ids a `paths` argument denotes: one node's id, or the ids of
/// every node of a stream.
pub open spec fn spec_collect_node_ids(
    items: Seq<Result<ValueV, ErrorV>>,
    pos: int,
    acc: Seq<u64>,
) -> Result<Seq<u64>, ErrorV>
    decreases items.len() - pos,
{
    if pos < 0 || pos >= items.len() {
        Ok(acc)
    } else {
        match items[pos] {
            Err(e) => Err(e),
            Ok(ValueV::Node(n)) => spec_collect_node_ids(items, pos + 1, acc.push(n.id)),
            Ok(v) => Err(ErrorV::Type { expected: "node"@, actual: spec_kind_name(v) }),
        }
    }
}

/// Whether every start id resolves in the snapshot.
pub open spec fn spec_all_resolve(starts: Seq<u64>, dump: DumpV) -> bool {
    forall|k: int| 0 <= k < starts.len() ==> (#[trigger] dump.find_node(starts[k])) is Some
}

/// The traversal state with every start node added, in order.
pub open spec fn spec_bfs_starts(starts: Seq<u64>, k: int, bfs: BfsV) -> BfsV
    decreases starts.len() - k,
{
    if k < 0 || k >= starts.len() {
        bfs
    } else {
        spec_bfs_starts(
            starts,
            k + 1,
            BfsV { visited: bfs.visited.insert(starts[k], None), front: bfs.front.push(starts[k]) },
        )
    }
}

/// Run a traversal to completion, collecting each produced path.
pub open spec fn spec_bfs_run(bfs: BfsV, dump: DumpV, steps: nat, acc: Seq<Seq<StepV>>) -> Seq<
    Seq<StepV>,
>
    decreases steps,
{
    if steps == 0 {
        acc
    } else {
        let (bfs2, r) = spec_bfs_next(bfs, dump);
        match r {
            None => acc,
            Some(path) => spec_bfs_run(bfs2, dump, (steps - 1) as nat, acc.push(path)),
        }
    }
}

/// The values of one path: the start node, then each step's edge and the
/// node it reaches, alternating.
pub open spec fn spec_path_values(dump: DumpV, path: Seq<StepV>, k: int, acc: Seq<ValueV>) -> Result<
    Seq<ValueV>,
    ErrorV,
>
    decreases path.len() - k,
{
    if k < 0 || k >= path.len() {
        Ok(acc)
    } else {
        match path[k].edge.referent {
            None => Err(ErrorV::Internal),
            Some(r) => match dump.find_node(r) {
                None => Err(ErrorV::Internal),
                Some(nd) => spec_path_values(
                    dump,
                    path,
                    k + 1,
                    acc.push(ValueV::Edge(path[k].edge)).push(ValueV::Node(nd)),
                ),
            },
        }
    }
}

/// Each non-trivial path as a stream value of its alternating nodes and
/// edges; a path whose values cannot be assembled ends the stream with the
/// error.
pub open spec fn spec_path_items(
    dump: DumpV,
    paths: Seq<Seq<StepV>>,
    k: int,
    acc: Seq<Result<ValueV, ErrorV>>,
) -> Seq<Result<ValueV, ErrorV>>
    decreases paths.len() - k,
{
    if k < 0 || k >= paths.len() {
        acc
    } else {
        let path = paths[k];
        if path.len() == 0 {
            spec_path_items(dump, paths, k + 1, acc)
        } else {
            match dump.find_node(path[0].origin) {
                None => acc.push(Err(ErrorV::Internal)),
                Some(n0) => match spec_path_values(dump, path, 0, seq![ValueV::Node(n0)]) {
                    Ok(vs) => spec_path_items(
                        dump,
                        paths,
                        k + 1,
                        acc.push(
                            Ok(
                                ValueV::Stream(
                                    StreamV {
                                        items: Seq::new(vs.len(), |i: int| Ok(vs[i])),
                                        pos: 0,
                                    },
                                ),
                            ),
                        ),
                    ),
                    Err(e) => acc.push(Err(e)),
                },
            }
        }
    }
}

/// The whole `paths` primitive: collect the start ids from the argument,
/// which must all resolve, traverse breadth-first to completion, and wrap
/// each non-trivial shortest path as a stream of values.
pub open spec fn spec_paths_value(dump: DumpV, v: ValueV) -> Result<ValueV, ErrorV> {
    let starts_r = match v {
        ValueV::Node(n) => Ok(seq![n.id]),
        ValueV::Stream(s) => spec_collect_node_ids(s.items, s.pos, Seq::empty()),
        _ => Err(
            ErrorV::Type { expected: "node or stream of nodes"@, actual: spec_kind_name(v) },
        ),
    };
    match starts_r {
        Err(e) => Err(e),
        Ok(starts) => if spec_all_resolve(starts, dump) {
            let bfs0 = spec_bfs_starts(
                starts,
                0,
                BfsV { visited: Map::empty(), front: Seq::empty() },
            );
            let steps = (2 * dump.nodes.len() + bfs0.front.len() + 1) as nat;
            let paths = spec_bfs_run(bfs0, dump, steps, Seq::empty());
            Ok(
                ValueV::Stream(
                    StreamV { items: spec_path_items(dump, paths, 0, Seq::empty()), pos: 0 },
                ),
            )
        } else {
            Err(ErrorV::Internal)
        },
    }
}

/// How many arguments a function value expects.
pub open spec fn spec_callable_arity(f: CallableV) -> usize {
    match f {
        CallableV::Closure { arity, .. } => arity,
        CallableV::Builtin(b) => b.spec_arity(),
        CallableV::Partial { arity, .. } => arity,
    }
}

/// Execute a plan in an activation against a snapshot. `fuel` bounds the
/// depth of function calls; exceeding it is the budget error.
pub open spec fn spec_run(p: PlanV, act: ActivationV, dump: DumpV, fuel: nat) -> Result<
    ValueV,
    ErrorV,
>
    decreases fuel, p, 1int,
{
    match p {
        PlanV::ConstNumber(n) => Ok(ValueV::Number(n)),
        PlanV::ConstString(s) => Ok(ValueV::String(s)),
        PlanV::StreamLiteral(ps) => Ok(
            ValueV::Stream(
                StreamV { items: spec_run_elements(ps, act, dump, fuel, Seq::empty()), pos: 0 },
            ),
        ),
        PlanV::Root => match dump.find_node(dump.root_id) {
            Some(n) => Ok(ValueV::Node(n)),
            None => Err(ErrorV::Internal),
        },
        PlanV::Nodes => Ok(spec_nodes_value(dump)),
        PlanV::NodesById(ip) => match spec_run(*ip, act, dump, fuel) {
            Err(e) => Err(e),
            Ok(ValueV::Number(n)) => Ok(
                ValueV::Stream(
                    StreamV {
                        items: match dump.find_node(n) {
                            Some(nd) => seq![Ok(ValueV::Node(nd))],
                            None => Seq::empty(),
                        },
                        pos: 0,
                    },
                ),
            ),
            Ok(v) => Err(ErrorV::Type { expected: "number"@, actual: spec_kind_name(v) }),
        },
        PlanV::Edges(np) => match spec_run(*np, act, dump, fuel) {
            Err(e) => Err(e),
            Ok(v) => spec_edges_value(v),
        },
        PlanV::First(sp) => match spec_run(*sp, act, dump, fuel) {
            Err(e) => Err(e),
            Ok(v) => spec_first_value(v),
        },
        PlanV::Paths(vp) => match spec_run(*vp, act, dump, fuel) {
            Err(e) => Err(e),
            Ok(v) => spec_paths_value(dump, v),
        },
        PlanV::Builtin(b) => Ok(ValueV::Function(CallableV::Builtin(b))),
        PlanV::Actual(i) => match act.read(VarLocation::Actual(i)) {
            Some(v) => Ok(v),
            None => Err(ErrorV::Internal),
        },
        PlanV::Captured(i) => match act.read(VarLocation::Captured(i)) {
            Some(v) => Ok(v),
            None => Err(ErrorV::Internal),
        },
        PlanV::Lambda { name, arity, body, capture_list } => match act.read_all(capture_list) {
            Some(vs) => Ok(
                ValueV::Function(CallableV::Closure { name, arity, body: *body, captured: vs }),
            ),
            None => Err(ErrorV::Internal),
        },
        PlanV::Call { arg, fun } => match spec_run(*arg, act, dump, fuel) {
            Err(e) => Err(e),
            Ok(v) => match spec_run(*fun, act, dump, fuel) {
                Err(e) => Err(e),
                Ok(ValueV::Function(f)) => if fuel == 0 {
                    Err(ErrorV::Budget)
                } else {
                    spec_call(f, seq![v], dump, (fuel - 1) as nat)
                },
                Ok(_) => Err(ErrorV::NotAFunction),
            },
        },
        PlanV::Filter { stream, capture_list, filter } => match spec_run(*stream, act, dump, fuel) {
            Err(e) => Err(e),
            Ok(ValueV::Stream(s)) => match act.read_all(capture_list) {
                Some(cap) => Ok(
                    ValueV::Stream(
                        StreamV {
                            items: spec_filter_items(
                                *filter,
                                s.items,
                                s.pos,
                                ActivationV { captured: cap, actuals: Seq::empty() },
                                dump,
                                fuel,
                                Seq::empty(),
                            ),
                            pos: 0,
                        },
                    ),
                ),
                None => Err(ErrorV::Internal),
            },
            Ok(v) => Err(ErrorV::Type { expected: "stream"@, actual: spec_kind_name(v) }),
        },
    }
}

/// Evaluate a stream literal's elements; an element's error takes its place
/// in the stream rather than failing the literal.
pub open spec fn spec_run_elements(
    ps: Seq<PlanV>,
    act: ActivationV,
    dump: DumpV,
    fuel: nat,
    acc: Seq<Result<ValueV, ErrorV>>,
) -> Seq<Result<ValueV, ErrorV>>
    decreases fuel, ps, 1int,
{
    if ps.len() == 0 {
        acc
    } else {
        spec_run_elements(ps.drop_first(), act, dump, fuel, acc.push(spec_run(ps[0], act, dump, fuel)))
    }
}

/// Apply a function value to arguments, from the right: with too few
/// arguments the result is a partial application awaiting the rest; with
/// too many, the rightmost are consumed and the result is applied to the
/// remainder.
pub open spec fn spec_call(f: CallableV, args: Seq<ValueV>, dump: DumpV, fuel: nat) -> Result<
    ValueV,
    ErrorV,
>
    decreases fuel, f, 2int,
{
    let ar = spec_callable_arity(f);
    if ar == 0 {
        Err(ErrorV::Internal)
    } else if args.len() < ar {
        Ok(
            ValueV::Function(
                CallableV::Partial {
                    function: Box::new(f),
                    arity: (ar - args.len()) as usize,
                    actuals: args,
                },
            ),
        )
    } else {
        let split = args.len() - ar;
        let unused = args.take(split as int);
        let exact = args.skip(split as int);
        match spec_call_exact(f, exact, dump, fuel) {
            Err(e) => Err(e),
            Ok(v) => if unused.len() == 0 {
                Ok(v)
            } else {
                match v {
                    ValueV::Function(f2) => if fuel == 0 {
                        Err(ErrorV::Budget)
                    } else {
                        spec_call(f2, unused, dump, (fuel - 1) as nat)
                    },
                    _ => Err(ErrorV::NotAFunction),
                }
            },
        }
    }
}

/// Apply a function value to exactly as many arguments as it expects.
pub open spec fn spec_call_exact(f: CallableV, exact: Seq<ValueV>, dump: DumpV, fuel: nat) -> Result<
    ValueV,
    ErrorV,
>
    decreases fuel, f, 1int,
{
    match f {
        CallableV::Closure { name, arity, body, captured } => if fuel == 0 {
            Err(ErrorV::Budget)
        } else {
            spec_run(body, ActivationV { captured, actuals: exact }, dump, (fuel - 1) as nat)
        },
        CallableV::Builtin(b) => if exact.len() != b.spec_arity() {
            Err(ErrorV::Internal)
        } else {
            match b {
                BuiltinFn::Edges => spec_edges_value(exact[0]),
                BuiltinFn::First => spec_first_value(exact[0]),
                BuiltinFn::Paths => spec_paths_value(dump, exact[0]),
                BuiltinFn::MapFn => match exact[0] {
                    ValueV::Stream(s) => match exact[1] {
                        ValueV::Function(f2) => if fuel == 0 {
                            Err(ErrorV::Budget)
                        } else {
                            Ok(
                                ValueV::Stream(
                                    StreamV {
                                        items: spec_map_items(
                                            f2,
                                            s.items,
                                            s.pos,
                                            dump,
                                            (fuel - 1) as nat,
                                            Seq::empty(),
                                        ),
                                        pos: 0,
                                    },
                                ),
                            )
                        },
                        v => Err(
                            ErrorV::Type { expected: "function"@, actual: spec_kind_name(v) },
                        ),
                    },
                    v => Err(ErrorV::Type { expected: "stream"@, actual: spec_kind_name(v) }),
                },
            }
        },
        CallableV::Partial { function, arity, actuals } => if exact.len() + actuals.len()
            == spec_callable_arity(*function) {
            spec_call_exact(*function, exact + actuals, dump, fuel)
        } else {
            Err(ErrorV::Internal)
        },
    }
}

/// Apply a function to each of a stream's remaining elements; an element's
/// error, or a call's error, ends the stream there.
pub open spec fn spec_map_items(
    f: CallableV,
    items: Seq<Result<ValueV, ErrorV>>,
    pos: int,
    dump: DumpV,
    fuel: nat,
    acc: Seq<Result<ValueV, ErrorV>>,
) -> Seq<Result<ValueV, ErrorV>>
    decreases fuel, f, 2 * (items.len() - pos) + 3,
{
    if pos < 0 || pos >= items.len() {
        acc
    } else {
        match items[pos] {
            Err(e) => acc.push(Err(e)),
            Ok(v) => match spec_call(f, seq![v], dump, fuel) {
                Err(e) => acc.push(Err(e)),
                Ok(r) => spec_map_items(f, items, pos + 1, dump, fuel, acc.push(Ok(r))),
            },
        }
    }
}

/// Keep the stream elements the predicate accepts; the predicate runs in an
/// activation holding only what it captures. An element's error, or a
/// test's error, ends the stream there.
pub open spec fn spec_filter_items(
    pp: PredicatePlanV,
    items: Seq<Result<ValueV, ErrorV>>,
    pos: int,
    act: ActivationV,
    dump: DumpV,
    fuel: nat,
    acc: Seq<Result<ValueV, ErrorV>>,
) -> Seq<Result<ValueV, ErrorV>>
    decreases fuel, pp, 2 * (items.len() - pos) + 3,
{
    if pos < 0 || pos >= items.len() {
        acc
    } else {
        match items[pos] {
            Err(e) => acc.push(Err(e)),
            Ok(v) => match spec_test(pp, v, act, dump, fuel) {
                Err(e) => acc.push(Err(e)),
                Ok(true) => spec_filter_items(pp, items, pos + 1, act, dump, fuel, acc.push(Ok(v))),
                Ok(false) => spec_filter_items(pp, items, pos + 1, act, dump, fuel, acc),
            },
        }
    }
}

/// Whether a predicate plan matches a value, in the given activation.
pub open spec fn spec_test(
    pp: PredicatePlanV,
    v: ValueV,
    act: ActivationV,
    dump: DumpV,
    fuel: nat,
) -> Result<bool, ErrorV>
    decreases fuel, pp, 1int,
{
    match pp {
        PredicatePlanV::Equal(ep) => match spec_run(*ep, act, dump, fuel) {
            Err(e) => Err(e),
            Ok(given) => Ok(spec_value_eq(v, given)),
        },
        PredicatePlanV::Field { field_name, predicate } => {
            let field_r = match v {
                ValueV::Node(n) => spec_get_node_field(n, field_name),
                ValueV::Edge(e) => spec_get_edge_field(e, field_name),
                _ => Err(ErrorV::Type { expected: "node or edge"@, actual: spec_kind_name(v) }),
            };
            match field_r {
                Err(e) => Err(e),
                Ok(None) => Ok(false),
                Ok(Some(fv)) => spec_test(*predicate, fv, act, dump, fuel),
            }
        },
        PredicatePlanV::Ends(sub) => match v {
            ValueV::Stream(s) => match spec_stream_last(s.items, s.pos) {
                Err(e) => Err(e),
                Ok(None) => Err(ErrorV::EmptyStream),
                Ok(Some(last)) => spec_test(*sub, last, act, dump, fuel),
            },
            _ => Err(ErrorV::Type { expected: "stream"@, actual: spec_kind_name(v) }),
        },
        PredicatePlanV::Any(sub) => match v {
            ValueV::Stream(s) => spec_quant_items(*sub, false, s.items, s.pos, act, dump, fuel),
            _ => Err(ErrorV::Type { expected: "stream"@, actual: spec_kind_name(v) }),
        },
        PredicatePlanV::All(sub) => match v {
            ValueV::Stream(s) => spec_quant_items(*sub, true, s.items, s.pos, act, dump, fuel),
            _ => Err(ErrorV::Type { expected: "stream"@, actual: spec_kind_name(v) }),
        },
        PredicatePlanV::Empty => match v {
            ValueV::Stream(s) => match s.step().1 {
                Err(e) => Err(e),
                Ok(None) => Ok(true),
                Ok(Some(_)) => Ok(false),
            },
            _ => Err(ErrorV::Type { expected: "stream"@, actual: spec_kind_name(v) }),
        },
        PredicatePlanV::NonEmpty => match v {
            ValueV::Stream(s) => match s.step().1 {
                Err(e) => Err(e),
                Ok(None) => Ok(false),
                Ok(Some(_)) => Ok(true),
            },
            _ => Err(ErrorV::Type { expected: "stream"@, actual: spec_kind_name(v) }),
        },
        PredicatePlanV::Regex(pattern) => match v {
            ValueV::String(s) => if regex_compiles(pattern) {
                Ok(regex_matches(pattern, s))
            } else {
                Err(ErrorV::Internal)
            },
            _ => Err(ErrorV::Type { expected: "string"@, actual: spec_kind_name(v) }),
        },
        PredicatePlanV::And(ps) => spec_test_list(ps, true, v, act, dump, fuel),
        PredicatePlanV::Or(ps) => spec_test_list(ps, false, v, act, dump, fuel),
        PredicatePlanV::Not(sub) => match spec_test(*sub, v, act, dump, fuel) {
            Err(e) => Err(e),
            Ok(b) => Ok(!b),
        },
    }
}

/// Test a junction's subplans left to right, short-circuiting as soon as
/// one departs from `want_all`.
pub open spec fn spec_test_list(
    ps: Seq<PredicatePlanV>,
    want_all: bool,
    v: ValueV,
    act: ActivationV,
    dump: DumpV,
    fuel: nat,
) -> Result<bool, ErrorV>
    decreases fuel, ps, 1int,
{
    if ps.len() == 0 {
        Ok(want_all)
    } else {
        match spec_test(ps[0], v, act, dump, fuel) {
            Err(e) => Err(e),
            Ok(b) => if b != want_all {
                Ok(!want_all)
            } else {
                spec_test_list(ps.drop_first(), want_all, v, act, dump, fuel)
            },
        }
    }
}

/// Test a sub-predicate against a stream's remaining elements: with
/// `want_all` every element must match; without it one match is enough.
pub open spec fn spec_quant_items(
    sub: PredicatePlanV,
    want_all: bool,
    items: Seq<Result<ValueV, ErrorV>>,
    pos: int,
    act: ActivationV,
    dump: DumpV,
    fuel: nat,
) -> Result<bool, ErrorV>
    decreases fuel, sub, 2 * (items.len() - pos) + 3,
{
    if pos < 0 || pos >= items.len() {
        Ok(want_all)
    } else {
        match items[pos] {
            Err(e) => Err(e),
            Ok(v) => match spec_test(sub, v, act, dump, fuel) {
                Err(e) => Err(e),
                Ok(b) => if b != want_all {
                    Ok(!want_all)
                } else {
                    spec_quant_items(sub, want_all, items, pos + 1, act, dump, fuel)
                },
            },
        }
    }
}


/// Compare two code-unit vectors.
fn u16s_eq(a: &Vec<u16>, b: &Vec<u16>) -> (r: bool)
    ensures
        r == (a@ == b@),
{
    if a.len() != b.len() {
        proof {
            assert(a@ != b@);
        }
        return false;
    }
    let mut i: usize = 0;
    while i < a.len()
        invariant
            i <= a@.len(),
            a@.len() == b@.len(),
            forall|k: int| 0 <= k < i ==> a@[k] == b@[k],
        decreases a@.len() - i,
    {
        if a[i] != b[i] {
            return false;
        }
        i = i + 1;
    }
    proof {
        assert(a@ =~= b@);
    }
    true
}

/// Compare two values as the equality predicate does. Mirrors
/// [`spec_value_eq`].
pub fn value_eq(a: &Value, b: &Value) -> (r: bool)
    ensures
        r == spec_value_eq(a.deep_view(), b.deep_view()),
{
    match (a, b) {
        (Value::Number(x), Value::Number(y)) => *x == *y,
        (Value::String(x), Value::String(y)) => *x == *y,
        (Value::Edge(x), Value::Edge(y)) => {
            let referent_eq = match (&x.referent, &y.referent) {
                (Some(rx), Some(ry)) => rx.0 == ry.0,
                (None, None) => true,
                _ => false,
            };
            let name_eq = match (&x.name, &y.name) {
                (Some(nx), Some(ny)) => u16s_eq(&nx.0, &ny.0),
                (None, None) => true,
                _ => false,
            };
            referent_eq && name_eq
        },
        (Value::Node(x), Value::Node(y)) => x.id.0 == y.id.0,
        _ => false,
    }
}

/// A node's field as the field predicate sees it. Mirrors
/// [`spec_get_node_field`].
pub fn get_node_field(n: &Node, field: &String) -> (r: Result<Option<Value>, Error>)
    ensures
        match r {
            Ok(Some(v)) => spec_get_node_field(n@, field@) == Ok::<Option<ValueV>, ErrorV>(
                Some(v.deep_view()),
            ),
            Ok(None) => spec_get_node_field(n@, field@) == Ok::<Option<ValueV>, ErrorV>(None),
            Err(e) => spec_get_node_field(n@, field@) == Err::<Option<ValueV>, ErrorV>(e@),
        },
{
    if *field == "id".to_owned() {
        Ok(Some(Value::Number(n.id.0)))
    } else if *field == "size".to_owned() {
        Ok(
            match n.size {
                Some(s) => Some(Value::Number(s)),
                None => None,
            },
        )
    } else if *field == "coarseType".to_owned() {
        let name: String = match n.coarseType {
            CoarseType::Other => "Other".to_owned(),
            CoarseType::Object => "Object".to_owned(),
            CoarseType::Script => "Script".to_owned(),
            CoarseType::String => "String".to_owned(),
            CoarseType::DOMNode => "DOMNode".to_owned(),
        };
        Ok(Some(Value::String(name)))
    } else if *field == "typeName".to_owned() {
        Ok(
            match &n.typeName {
                Some(u) => Some(Value::String(two_byte_text(&u.0))),
                None => None,
            },
        )
    } else if *field == "JSObjectClassName".to_owned() {
        Ok(
            match &n.JSObjectClassName {
                Some(b) => Some(Value::String(one_byte_text(&b.0))),
                None => None,
            },
        )
    } else if *field == "scriptFilename".to_owned() {
        Ok(
            match &n.scriptFilename {
                Some(b) => Some(Value::String(one_byte_text(&b.0))),
                None => None,
            },
        )
    } else if *field == "descriptiveTypeName".to_owned() {
        Ok(
            match &n.descriptiveTypeName {
                Some(u) => Some(Value::String(two_byte_text(&u.0))),
                None => None,
            },
        )
    } else {
        Err(Error::NoSuchField { value_kind: "nodes", field: field.clone() })
    }
}

/// An edge's field as the field predicate sees it. Mirrors
/// [`spec_get_edge_field`].
pub fn get_edge_field(e: &Edge, field: &String) -> (r: Result<Option<Value>, Error>)
    ensures
        match r {
            Ok(Some(v)) => spec_get_edge_field(e@, field@) == Ok::<Option<ValueV>, ErrorV>(
                Some(v.deep_view()),
            ),
            Ok(None) => spec_get_edge_field(e@, field@) == Ok::<Option<ValueV>, ErrorV>(None),
            Err(er) => spec_get_edge_field(e@, field@) == Err::<Option<ValueV>, ErrorV>(er@),
        },
{
    if *field == "referent".to_owned() {
        Ok(
            match &e.referent {
                Some(r) => Some(Value::Number(r.0)),
                None => None,
            },
        )
    } else if *field == "name".to_owned() {
        Ok(
            match &e.name {
                Some(u) => Some(Value::String(two_byte_text(&u.0))),
                None => None,
            },
        )
    } else {
        Err(Error::NoSuchField { value_kind: "edges", field: field.clone() })
    }
}

/// The stream of a node's edges. Mirrors [`spec_edges_value`].
#[verifier::loop_isolation(false)]
pub fn edges_value(v: &Value) -> (r: Result<Value, Error>)
    ensures
        match r {
            Ok(out) => spec_edges_value(v.deep_view()) == Ok::<ValueV, ErrorV>(out.deep_view()),
            Err(e) => spec_edges_value(v.deep_view()) == Err::<ValueV, ErrorV>(e@),
        },
{
    match v {
        Value::Node(n) => {
            let mut items: Vec<StreamItem> = Vec::new();
            let mut i: usize = 0;
            while i < n.edges.len()
                invariant
                    i <= n.edges@.len(),
                    items@.len() == i,
                    forall|k: int|
                        0 <= k < i ==> (#[trigger] items@[k] matches Ok(it) && it.deep_view()
                            == ValueV::Edge(n@.edges[k])),
                decreases n.edges@.len() - i,
            {
                let e = n.edges[i].duplicate();
                items.push(Ok(Value::Edge(e)));
                i = i + 1;
            }
            let s = Stream::new(items);
            proof {
                let expected = spec_edges_value(v.deep_view())->Ok_0->Stream_0;
                assert forall|k: int| 0 <= k < i implies s.deep_view().items[k]
                    == expected.items[k] by {
                    assert((items@[k] matches Ok(it) && it.deep_view() == ValueV::Edge(
                        n@.edges[k],
                    )));
                }
                assert(s.deep_view().items =~= expected.items);
            }
            Ok(Value::Stream(s))
        },
        _ => Err(Error::Type { expected: "node", actual: v.kind_name() }),
    }
}

/// The first element of a stream. Mirrors [`spec_first_value`].
pub fn first_value(v: Value) -> (r: Result<Value, Error>)
    ensures
        match r {
            Ok(out) => spec_first_value(v.deep_view()) == Ok::<ValueV, ErrorV>(out.deep_view()),
            Err(e) => spec_first_value(v.deep_view()) == Err::<ValueV, ErrorV>(e@),
        },
{
    match v {
        Value::Stream(s) => {
            let mut s2 = s;
            match s2.next() {
                Ok(Some(x)) => Ok(x),
                Ok(None) => Err(Error::EmptyStream),
                Err(e) => Err(e),
            }
        },
        _ => {
            let actual = v.kind_name();
            Err(Error::Type { expected: "stream", actual })
        },
    }
}

/// The stream of all the snapshot's nodes. Mirrors [`spec_nodes_value`].
#[verifier::loop_isolation(false)]
pub fn nodes_value(cx: &Context) -> (r: Value)
    ensures
        r.deep_view() == spec_nodes_value(cx.dump@),
{
    let nodes = cx.dump.nodes();
    let mut items: Vec<StreamItem> = Vec::new();
    let mut i: usize = 0;
    while i < nodes.len()
        invariant
            i <= nodes@.len(),
            items@.len() == i,
            forall|k: int|
                0 <= k < i ==> (#[trigger] items@[k] matches Ok(it) && it.deep_view()
                    == ValueV::Node(cx.dump@.nodes[k])),
        decreases nodes@.len() - i,
    {
        let n = nodes[i].duplicate();
        items.push(Ok(Value::Node(n)));
        i = i + 1;
    }
    let s = Stream::new(items);
    proof {
        let expected = spec_nodes_value(cx.dump@)->Stream_0;
        assert forall|k: int| 0 <= k < i implies s.deep_view().items[k] == expected.items[k] by {
            assert((items@[k] matches Ok(it) && it.deep_view() == ValueV::Node(
                cx.dump@.nodes[k],
            )));
        }
        assert(s.deep_view().items =~= expected.items);
    }
    Value::Stream(s)
}


/// Drain a stream's remaining items into the node ids a `paths` argument
/// denotes. Mirrors [`spec_collect_node_ids`].
#[verifier::loop_isolation(false)]
fn collect_node_ids(s: &Stream) -> (r: Result<Vec<u64>, Error>)
    ensures
        match r {
            Ok(ids) => spec_collect_node_ids(s.deep_view().items, s.deep_view().pos, Seq::empty())
                == Ok::<Seq<u64>, ErrorV>(ids@),
            Err(e) => spec_collect_node_ids(s.deep_view().items, s.deep_view().pos, Seq::empty())
                == Err::<Seq<u64>, ErrorV>(e@),
        },
{
    let ghost itemsv = s.deep_view().items;
    let items = crate::shim::rc_get(&s.items);
    let mut ids: Vec<u64> = Vec::new();
    let mut pos = s.pos;
    proof {
        assert(itemsv =~= deep_view_items(items@));
        assert(s.deep_view().pos == s.pos as int);
    }
    while pos < items.len()
        invariant
            s.pos <= pos || s.pos >= items@.len(),
            itemsv == deep_view_items(items@),
            itemsv.len() == items@.len(),
            spec_collect_node_ids(itemsv, s.pos as int, Seq::empty()) == spec_collect_node_ids(
                itemsv,
                pos as int,
                ids@,
            ),
        decreases items@.len() - pos,
    {
        proof {
            assert(itemsv[pos as int] == (match items@[pos as int] {
                Ok(v) => Ok::<ValueV, ErrorV>(v.deep_view()),
                Err(e) => Err::<ValueV, ErrorV>(e@),
            }));
        }
        match &items[pos] {
            Err(e) => {
                return Err(e.duplicate());
            },
            Ok(Value::Node(n)) => {
                ids.push(n.id.0);
            },
            Ok(v) => {
                return Err(Error::Type { expected: "node", actual: v.kind_name() });
            },
        }
        pos = pos + 1;
    }
    Ok(ids)
}

/// The `paths` primitive: the shortest-path streams from the nodes a value
/// denotes. Mirrors [`spec_paths_value`].
#[verifier::loop_isolation(false)]
pub fn paths_value(cx: &Context, v: &Value) -> (r: Result<Value, Error>)
    requires
        cx.dump.wf(),
    ensures
        match r {
            Ok(out) => spec_paths_value(cx.dump@, v.deep_view()) == Ok::<ValueV, ErrorV>(
                out.deep_view(),
            ),
            Err(e) => spec_paths_value(cx.dump@, v.deep_view()) == Err::<ValueV, ErrorV>(e@),
        },
{
    let ghost dumpv = cx.dump@;
    let starts: Vec<u64> = match v {
        Value::Node(n) => {
            let mut starts: Vec<u64> = Vec::new();
            starts.push(n.id.0);
            proof {
                assert(starts@ =~= seq![n@.id]);
            }
            starts
        },
        Value::Stream(s) => match collect_node_ids(s) {
            Ok(ids) => ids,
            Err(e) => {
                return Err(e);
            },
        },
        _ => {
            return Err(
                Error::Type { expected: "node or stream of nodes", actual: v.kind_name() },
            );
        },
    };
    // every start must resolve before traversal begins
    let mut k: usize = 0;
    while k < starts.len()
        invariant
            k <= starts@.len(),
            forall|j: int| 0 <= j < k ==> (#[trigger] dumpv.find_node(starts@[j])) is Some,
        decreases starts@.len() - k,
    {
        if !cx.dump.has_node(NodeId(starts[k])) {
            proof {
                assert(!spec_all_resolve(starts@, dumpv));
            }
            return Err(Error::Internal);
        }
        k = k + 1;
    }
    proof {
        assert(spec_all_resolve(starts@, dumpv));
    }
    let mut bfs = crate::breadth_first::BreadthFirst::new(cx.dump);
    let mut k2: usize = 0;
    proof {
        assert(spec_bfs_starts(starts@, 0, bfs.deep_view()) == spec_bfs_starts(
            starts@,
            0,
            BfsV { visited: Map::empty(), front: Seq::empty() },
        ));
    }
    let ghost bfs_init = spec_bfs_starts(
        starts@,
        0,
        BfsV { visited: Map::empty(), front: Seq::empty() },
    );
    while k2 < starts.len()
        invariant
            k2 <= starts@.len(),
            bfs.dump == cx.dump,
            forall|j: int| 0 <= j < starts@.len() ==> (#[trigger] dumpv.find_node(
                starts@[j],
            )) is Some,
            bfs.deep_view().inv(dumpv),
            bfs_init == spec_bfs_starts(starts@, k2 as int, bfs.deep_view()),
        decreases starts@.len() - k2,
    {
        bfs.set_start_node(NodeId(starts[k2]));
        k2 = k2 + 1;
    }
    proof {
        assert(bfs.deep_view() == bfs_init);
    }
    // drive the traversal to completion
    let ghost steps0 = (2 * dumpv.nodes.len() + bfs_init.front.len() + 1) as nat;
    let ghost mut steps = steps0;
    let mut raw_paths: Vec<Vec<crate::breadth_first::Step>> = Vec::new();
    proof {
        crate::breadth_first::lemma_visited_bound(bfs.deep_view(), dumpv);
        assert(deep_view_paths(raw_paths@) =~= Seq::<Seq<StepV>>::empty());
    }
    loop
        invariant
            bfs.dump == cx.dump,
            cx.dump.wf(),
            bfs.deep_view().inv(dumpv),
            steps > bfs.deep_view().metric(dumpv),
            spec_bfs_run(bfs_init, dumpv, steps0, Seq::empty()) == spec_bfs_run(
                bfs.deep_view(),
                dumpv,
                steps,
                deep_view_paths(raw_paths@),
            ),
        decreases steps,
    {
        let ghost pre = bfs.deep_view();
        let ghost acc0 = deep_view_paths(raw_paths@);
        match bfs.next() {
            Some(path) => {
                proof {
                    assert(pre.front.len() > 0) by {
                        if pre.front.len() == 0 {
                            assert(spec_bfs_next(pre, dumpv).1 is None);
                        }
                    }
                    crate::breadth_first::lemma_visited_bound(bfs.deep_view(), dumpv);
                    steps = (steps - 1) as nat;
                }
                raw_paths.push(path);
                proof {
                    assert(deep_view_paths(raw_paths@) =~= acc0.push(
                        Seq::new(
                            raw_paths@[raw_paths@.len() - 1]@.len(),
                            |i: int| raw_paths@[raw_paths@.len() - 1]@[i]@,
                        ),
                    ));
                }
            },
            None => {
                break ;
            },
        }
    }
    let ghost paths_done = spec_bfs_run(bfs_init, dumpv, steps0, Seq::empty());
    proof {
        assert(paths_done == deep_view_paths(raw_paths@));
    }
    // wrap each non-trivial path as a stream of alternating values
    let mut items: Vec<StreamItem> = Vec::new();
    let mut p: usize = 0;
    proof {
        assert(deep_view_items(items@) =~= Seq::<Result<ValueV, ErrorV>>::empty());
    }
    while p < raw_paths.len()
        invariant
            p <= raw_paths@.len(),
            cx.dump.wf(),
            paths_done == deep_view_paths(raw_paths@),
            spec_path_items(dumpv, paths_done, 0, Seq::empty()) == spec_path_items(
                dumpv,
                paths_done,
                p as int,
                deep_view_items(items@),
            ),
        decreases raw_paths@.len() - p,
    {
        let ghost acc0 = deep_view_items(items@);
        let ghost pathv = paths_done[p as int];
        let path = &raw_paths[p];
        proof {
            assert(pathv =~= Seq::new(path@.len(), |i: int| path@[i]@));
        }
        if path.len() > 0 {
            let origin = path[0].origin;
            proof {
                assert(pathv[0] == path@[0]@);
            }
            match cx.dump.get_node(origin) {
                None => {
                    items.push(Err(Error::Internal));
                    proof {
                        assert(deep_view_items(items@) =~= acc0.push(
                            Err::<ValueV, ErrorV>(ErrorV::Internal),
                        ));
                    }
                    p = raw_paths.len();
                    proof {
                        assert(spec_path_items(dumpv, paths_done, 0, Seq::empty())
                            == deep_view_items(items@));
                    }
                    break ;
                },
                Some(n0) => {
                    let mut vals: Vec<Value> = Vec::new();
                    vals.push(Value::Node(n0.duplicate()));
                    let mut q: usize = 0;
                    proof {
                        assert(deep_view_values(vals@) =~= seq![ValueV::Node(n0@)]);
                    }
                    let mut failed = false;
                    while q < path.len()
                        invariant
                            q <= path@.len(),
                            cx.dump.wf(),
                            !failed ==> spec_path_values(
                                dumpv,
                                pathv,
                                0,
                                seq![ValueV::Node(n0@)],
                            ) == spec_path_values(dumpv, pathv, q as int, deep_view_values(vals@)),
                            pathv == Seq::new(path@.len(), |i: int| path@[i]@),
                            failed ==> spec_path_values(
                                dumpv,
                                pathv,
                                0,
                                seq![ValueV::Node(n0@)],
                            ) is Err,
                            failed ==> spec_path_values(
                                dumpv,
                                pathv,
                                0,
                                seq![ValueV::Node(n0@)],
                            )->Err_0 == ErrorV::Internal,
                        decreases path@.len() - q,
                    {
                        let ghost vals0 = deep_view_values(vals@);
                        proof {
                            assert(pathv[q as int] == path@[q as int]@);
                        }
                        let step = &path[q];
                        match &step.edge.referent {
                            None => {
                                failed = true;
                                q = path.len();
                            },
                            Some(rid) => match cx.dump.get_node(*rid) {
                                None => {
                                    failed = true;
                                    q = path.len();
                                },
                                Some(nd) => {
                                    vals.push(Value::Edge(step.edge.duplicate()));
                                    vals.push(Value::Node(nd.duplicate()));
                                    proof {
                                        assert(deep_view_values(vals@) =~= vals0.push(
                                            ValueV::Edge(pathv[q as int].edge),
                                        ).push(ValueV::Node(nd@)));
                                    }
                                    q = q + 1;
                                },
                            },
                        }
                    }
                    if failed {
                        items.push(Err(Error::Internal));
                        proof {
                            assert(deep_view_items(items@) =~= acc0.push(
                                Err::<ValueV, ErrorV>(ErrorV::Internal),
                            ));
                        }
                        p = raw_paths.len();
                        proof {
                            assert(spec_path_items(dumpv, paths_done, 0, Seq::empty())
                                == deep_view_items(items@));
                        }
                        break ;
                    }
                    // the path's values become one stream element
                    let mut sub_items: Vec<StreamItem> = Vec::new();
                    let mut w: usize = 0;
                    let ghost valsv = deep_view_values(vals@);
                    while w < vals.len()
                        invariant
                            w <= vals@.len(),
                            valsv == deep_view_values(vals@),
                            deep_view_items(sub_items@) =~= Seq::new(
                                w as nat,
                                |i: int|
                                    if 0 <= i < w {
                                        Ok::<ValueV, ErrorV>(valsv[i])
                                    } else {
                                        Ok(ValueV::Number(0))
                                    },
                            ),
                        decreases vals@.len() - w,
                    {
                        let ghost sub0 = deep_view_items(sub_items@);
                        let d = vals[w].duplicate();
                        sub_items.push(Ok(d));
                        proof {
                            assert(deep_view_items(sub_items@) =~= sub0.push(
                                Ok::<ValueV, ErrorV>(valsv[w as int]),
                            ));
                        }
                        w = w + 1;
                    }
                    let sub = Stream::new(sub_items);
                    items.push(Ok(Value::Stream(sub)));
                    proof {
                        let expected_items = Seq::new(valsv.len(), |i: int| Ok::<
                            ValueV,
                            ErrorV,
                        >(valsv[i]));
                        assert(deep_view_items(sub_items@) =~= expected_items);
                        assert(deep_view_items(items@) =~= acc0.push(
                            Ok::<ValueV, ErrorV>(
                                ValueV::Stream(StreamV { items: expected_items, pos: 0 }),
                            ),
                        ));
                    }
                    p = p + 1;
                },
            }
        } else {
            p = p + 1;
        }
    }
    proof {
        assert(spec_path_items(dumpv, paths_done, raw_paths@.len() as int, deep_view_items(items@))
            == deep_view_items(items@));
    }
    let s = Stream::new(items);
    Ok(Value::Stream(s))
}

/// The views of a list of raw paths.
pub open spec fn deep_view_paths(ps: Seq<Vec<crate::breadth_first::Step>>) -> Seq<Seq<StepV>> {
    Seq::new(
        ps.len(),
        |k: int|
            if 0 <= k < ps.len() {
                Seq::new(ps[k]@.len(), |i: int| ps[k]@[i]@)
            } else {
                Seq::empty()
            },
    )
}


/// The last value of a stream's remaining items. Mirrors
/// [`spec_stream_last`].
#[verifier::loop_isolation(false)]
fn stream_last_x(items: &Vec<StreamItem>, start: usize) -> (r: Result<Option<Value>, Error>)
    ensures
        match r {
            Ok(Some(v)) => spec_stream_last(deep_view_items(items@), start as int) == Ok::<
                Option<ValueV>,
                ErrorV,
            >(Some(v.deep_view())),
            Ok(None) => spec_stream_last(deep_view_items(items@), start as int) == Ok::<
                Option<ValueV>,
                ErrorV,
            >(None),
            Err(e) => spec_stream_last(deep_view_items(items@), start as int) == Err::<
                Option<ValueV>,
                ErrorV,
            >(e@),
        },
{
    let ghost itemsv = deep_view_items(items@);
    let mut last: Option<Value> = None;
    let mut pos = start;
    while pos < items.len()
        invariant
            start <= pos || start >= items@.len(),
            itemsv == deep_view_items(items@),
            (match spec_stream_last(itemsv, pos as int) {
                Ok(None) => spec_stream_last(itemsv, start as int) == (match last {
                    Some(v) => Ok::<Option<ValueV>, ErrorV>(Some(v.deep_view())),
                    None => Ok::<Option<ValueV>, ErrorV>(None),
                }),
                other => spec_stream_last(itemsv, start as int) == other,
            }),
        decreases items@.len() - pos,
    {
        proof {
            assert(itemsv[pos as int] == (match items@[pos as int] {
                Ok(v) => Ok::<ValueV, ErrorV>(v.deep_view()),
                Err(e) => Err::<ValueV, ErrorV>(e@),
            }));
        }
        match &items[pos] {
            Err(e) => {
                return Err(e.duplicate());
            },
            Ok(v) => {
                last = Some(v.duplicate());
            },
        }
        pos = pos + 1;
    }
    match last {
        Some(v) => Ok(Some(v)),
        None => Ok(None),
    }
}

/// Execute a plan in an activation against a snapshot. Mirrors
/// [`spec_run`]; `fuel` bounds the depth of function calls.
impl Plan {
    #[verifier::loop_isolation(false)]
    pub fn run(&self, act: &Activation, cx: &Context, fuel: u64) -> (r: Result<Value, Error>)
        requires
            cx.dump.wf(),
        ensures
            match r {
                Ok(v) => spec_run(self.deep_view(), act.deep_view(), cx.dump@, fuel as nat)
                    == Ok::<ValueV, ErrorV>(v.deep_view()),
                Err(e) => spec_run(self.deep_view(), act.deep_view(), cx.dump@, fuel as nat)
                    == Err::<ValueV, ErrorV>(e@),
            },
        decreases fuel, self, 1int,
    {
        let ghost dumpv = cx.dump@;
        let ghost actv = act.deep_view();
        let ghost fueln = fuel as nat;
        match self {
            Plan::ConstNumber(n) => Ok(Value::Number(*n)),
            Plan::ConstString(st) => Ok(Value::String(st.clone())),
            Plan::StreamLiteral(ps) => {
                let ghost psv = deep_view_plans(ps@);
                let mut items: Vec<StreamItem> = Vec::new();
                let mut i: usize = 0;
                proof {
                    assert(psv.skip(0) =~= psv);
                    assert(deep_view_items(items@) =~= Seq::<Result<ValueV, ErrorV>>::empty());
                }
                while i < ps.len()
                    invariant
                        i <= ps@.len(),
                        spec_run_elements(psv, actv, dumpv, fueln, Seq::empty())
                            == spec_run_elements(
                            psv.skip(i as int),
                            actv,
                            dumpv,
                            fueln,
                            deep_view_items(items@),
                        ),
                    decreases ps@.len() - i,
                {
                    let ghost rest = psv.skip(i as int);
                    let ghost acc0 = deep_view_items(items@);
                    proof {
                        assert(rest[0] == psv[i as int]);
                        assert(psv[i as int] == ps@[i as int].deep_view());
                        assert(rest.drop_first() =~= psv.skip(i as int + 1));
                    }
                    let item: StreamItem = match ps[i].run(act, cx, fuel) {
                        Ok(v) => Ok(v),
                        Err(e) => Err(e),
                    };
                    items.push(item);
                    proof {
                        assert(deep_view_items(items@) =~= acc0.push(
                            spec_run(psv[i as int], actv, dumpv, fueln),
                        ));
                    }
                    i = i + 1;
                }
                proof {
                    assert(psv.skip(ps@.len() as int) =~= Seq::<PlanV>::empty());
                }
                Ok(Value::Stream(Stream::new(items)))
            },
            Plan::Root => {
                let n = cx.dump.get_root();
                Ok(Value::Node(n.duplicate()))
            },
            Plan::Nodes => Ok(nodes_value(cx)),
            Plan::NodesById(ip) => {
                let idv = match ip.run(act, cx, fuel) {
                    Ok(v) => v,
                    Err(e) => {
                        return Err(e);
                    },
                };
                match idv {
                    Value::Number(n) => {
                        let mut items: Vec<StreamItem> = Vec::new();
                        match cx.dump.get_node(NodeId(n)) {
                            Some(nd) => {
                                items.push(Ok(Value::Node(nd.duplicate())));
                                proof {
                                    assert(deep_view_items(items@) =~= seq![
                                        Ok::<ValueV, ErrorV>(
                                            ValueV::Node(dumpv.find_node(n)->Some_0),
                                        ),
                                    ]);
                                }
                            },
                            None => {
                                proof {
                                    assert(deep_view_items(items@) =~= Seq::<
                                        Result<ValueV, ErrorV>,
                                    >::empty());
                                }
                            },
                        }
                        Ok(Value::Stream(Stream::new(items)))
                    },
                    v => Err(Error::Type { expected: "number", actual: v.kind_name() }),
                }
            },
            Plan::Edges(np) => {
                let v = match np.run(act, cx, fuel) {
                    Ok(v) => v,
                    Err(e) => {
                        return Err(e);
                    },
                };
                edges_value(&v)
            },
            Plan::First(sp) => {
                let v = match sp.run(act, cx, fuel) {
                    Ok(v) => v,
                    Err(e) => {
                        return Err(e);
                    },
                };
                first_value(v)
            },
            Plan::Paths(vp) => {
                let v = match vp.run(act, cx, fuel) {
                    Ok(v) => v,
                    Err(e) => {
                        return Err(e);
                    },
                };
                paths_value(cx, &v)
            },
            Plan::Builtin(b) => Ok(Value::Function(crate::value::Function::new(
                crate::value::Callable::Builtin(*b),
            ))),
            Plan::Actual(i) => match act.get(&VarLocation::Actual(*i)) {
                Some(v) => Ok(v),
                None => Err(Error::Internal),
            },
            Plan::Captured(i) => match act.get(&VarLocation::Captured(*i)) {
                Some(v) => Ok(v),
                None => Err(Error::Internal),
            },
            Plan::Lambda { name, arity, body, capture_list } => {
                match act.get_captured(capture_list) {
                    Some(vs) => Ok(
                        Value::Function(
                            crate::value::Function::new(
                                crate::value::Callable::Closure {
                                    name: name.clone(),
                                    arity: *arity,
                                    body: crate::shim::rc_dup(body),
                                    captured: Rc::new(vs),
                                },
                            ),
                        ),
                    ),
                    None => Err(Error::Internal),
                }
            },
            Plan::Call { arg, fun } => {
                let v = match arg.run(act, cx, fuel) {
                    Ok(v) => v,
                    Err(e) => {
                        return Err(e);
                    },
                };
                let fv = match fun.run(act, cx, fuel) {
                    Ok(v) => v,
                    Err(e) => {
                        return Err(e);
                    },
                };
                match fv {
                    Value::Function(f) => {
                        if fuel == 0 {
                            Err(Error::Budget)
                        } else {
                            let mut args: Vec<Value> = Vec::new();
                            args.push(v);
                            proof {
                                assert(deep_view_values(args@) =~= seq![args@[0].deep_view()]);
                            }
                            f.call(args, cx, fuel - 1)
                        }
                    },
                    _ => Err(Error::NotAFunction),
                }
            },
            Plan::Filter { stream, capture_list, filter } => {
                let sv = match stream.run(act, cx, fuel) {
                    Ok(v) => v,
                    Err(e) => {
                        return Err(e);
                    },
                };
                match sv {
                    Value::Stream(st) => match act.get_captured(capture_list) {
                        Some(vs) => {
                            let inner = Activation::from_captured(Rc::new(vs));
                            let items = crate::shim::rc_get(&st.items);
                            let out = filter_items_x(
                                crate::shim::rc_get(filter),
                                items,
                                st.pos,
                                &inner,
                                cx,
                                fuel,
                            );
                            Ok(Value::Stream(Stream::new(out)))
                        },
                        None => Err(Error::Internal),
                    },
                    v => Err(Error::Type { expected: "stream", actual: v.kind_name() }),
                }
            },
        }
    }
}

/// Keep the stream elements a predicate accepts. Mirrors
/// [`spec_filter_items`].
#[verifier::loop_isolation(false)]
fn filter_items_x(
    pp: &PredicatePlan,
    items: &Vec<StreamItem>,
    start: usize,
    act: &Activation,
    cx: &Context,
    fuel: u64,
) -> (r: Vec<StreamItem>)
    requires
        cx.dump.wf(),
    ensures
        deep_view_items(r@) == spec_filter_items(
            pp.deep_view(),
            deep_view_items(items@),
            start as int,
            act.deep_view(),
            cx.dump@,
            fuel as nat,
            Seq::empty(),
        ),
    decreases fuel, pp, 3int,
{
    let ghost itemsv = deep_view_items(items@);
    let ghost ppv = pp.deep_view();
    let ghost actv = act.deep_view();
    let ghost dumpv = cx.dump@;
    let ghost fueln = fuel as nat;
    let mut out: Vec<StreamItem> = Vec::new();
    let mut pos = start;
    proof {
        assert(deep_view_items(out@) =~= Seq::<Result<ValueV, ErrorV>>::empty());
    }
    while pos < items.len()
        invariant
            start <= pos || start >= items@.len(),
            itemsv == deep_view_items(items@),
            spec_filter_items(ppv, itemsv, start as int, actv, dumpv, fueln, Seq::empty())
                == spec_filter_items(
                ppv,
                itemsv,
                pos as int,
                actv,
                dumpv,
                fueln,
                deep_view_items(out@),
            ),
        decreases items@.len() - pos,
    {
        let ghost acc0 = deep_view_items(out@);
        proof {
            assert(itemsv[pos as int] == (match items@[pos as int] {
                Ok(v) => Ok::<ValueV, ErrorV>(v.deep_view()),
                Err(e) => Err::<ValueV, ErrorV>(e@),
            }));
        }
        match &items[pos] {
            Err(e) => {
                out.push(Err(e.duplicate()));
                proof {
                    assert(deep_view_items(out@) =~= acc0.push(
                        Err::<ValueV, ErrorV>(itemsv[pos as int]->Err_0),
                    ));
                }
                return out;
            },
            Ok(v) => match test_pred(pp, v, act, cx, fuel) {
                Err(e) => {
                    out.push(Err(e));
                    proof {
                        assert(deep_view_items(out@) =~= acc0.push(
                            Err::<ValueV, ErrorV>(
                                spec_test(
                                    ppv,
                                    itemsv[pos as int]->Ok_0,
                                    actv,
                                    dumpv,
                                    fueln,
                                )->Err_0,
                            ),
                        ));
                    }
                    return out;
                },
                Ok(true) => {
                    out.push(Ok(v.duplicate()));
                    proof {
                        assert(deep_view_items(out@) =~= acc0.push(
                            Ok::<ValueV, ErrorV>(itemsv[pos as int]->Ok_0),
                        ));
                    }
                },
                Ok(false) => {},
            },
        }
        pos = pos + 1;
    }
    out
}

/// Test a predicate plan against a value. Mirrors [`spec_test`].
#[verifier::loop_isolation(false)]
pub fn test_pred(
    pp: &PredicatePlan,
    v: &Value,
    act: &Activation,
    cx: &Context,
    fuel: u64,
) -> (r: Result<bool, Error>)
    requires
        cx.dump.wf(),
    ensures
        match r {
            Ok(b) => spec_test(pp.deep_view(), v.deep_view(), act.deep_view(), cx.dump@, fuel as nat)
                == Ok::<bool, ErrorV>(b),
            Err(e) => spec_test(
                pp.deep_view(),
                v.deep_view(),
                act.deep_view(),
                cx.dump@,
                fuel as nat,
            ) == Err::<bool, ErrorV>(e@),
        },
    decreases fuel, pp, 1int,
{
    let ghost ppv = pp.deep_view();
    let ghost vv = v.deep_view();
    let ghost actv = act.deep_view();
    let ghost dumpv = cx.dump@;
    let ghost fueln = fuel as nat;
    match pp {
        PredicatePlan::Equal(ep) => match ep.run(act, cx, fuel) {
            Err(e) => Err(e),
            Ok(given) => Ok(value_eq(v, &given)),
        },
        PredicatePlan::Field { field_name, predicate } => {
            let field_r = match v {
                Value::Node(n) => get_node_field(n, field_name),
                Value::Edge(e) => get_edge_field(e, field_name),
                _ => Err(Error::Type { expected: "node or edge", actual: v.kind_name() }),
            };
            match field_r {
                Err(e) => Err(e),
                Ok(None) => Ok(false),
                Ok(Some(fv)) => test_pred(predicate, &fv, act, cx, fuel),
            }
        },
        PredicatePlan::Ends(sub) => match v {
            Value::Stream(s) => {
                let items = crate::shim::rc_get(&s.items);
                match stream_last_x(items, s.pos) {
                    Err(e) => Err(e),
                    Ok(None) => Err(Error::EmptyStream),
                    Ok(Some(last)) => test_pred(sub, &last, act, cx, fuel),
                }
            },
            _ => Err(Error::Type { expected: "stream", actual: v.kind_name() }),
        },
        PredicatePlan::Any(sub) => match v {
            Value::Stream(s) => {
                let items = crate::shim::rc_get(&s.items);
                quant_items_x(sub, false, items, s.pos, act, cx, fuel)
            },
            _ => Err(Error::Type { expected: "stream", actual: v.kind_name() }),
        },
        PredicatePlan::All(sub) => match v {
            Value::Stream(s) => {
                let items = crate::shim::rc_get(&s.items);
                quant_items_x(sub, true, items, s.pos, act, cx, fuel)
            },
            _ => Err(Error::Type { expected: "stream", actual: v.kind_name() }),
        },
        PredicatePlan::Empty => match v {
            Value::Stream(s) => {
                let items = crate::shim::rc_get(&s.items);
                if s.pos < items.len() {
                    proof {
                        assert(deep_view_items(items@)[s.pos as int] == (
                        match items@[s.pos as int] {
                            Ok(x) => Ok::<ValueV, ErrorV>(x.deep_view()),
                            Err(e) => Err::<ValueV, ErrorV>(e@),
                        }));
                    }
                    match &items[s.pos] {
                        Err(e) => Err(e.duplicate()),
                        Ok(_) => Ok(false),
                    }
                } else {
                    Ok(true)
                }
            },
            _ => Err(Error::Type { expected: "stream", actual: v.kind_name() }),
        },
        PredicatePlan::NonEmpty => match v {
            Value::Stream(s) => {
                let items = crate::shim::rc_get(&s.items);
                if s.pos < items.len() {
                    proof {
                        assert(deep_view_items(items@)[s.pos as int] == (
                        match items@[s.pos as int] {
                            Ok(x) => Ok::<ValueV, ErrorV>(x.deep_view()),
                            Err(e) => Err::<ValueV, ErrorV>(e@),
                        }));
                    }
                    match &items[s.pos] {
                        Err(e) => Err(e.duplicate()),
                        Ok(_) => Ok(true),
                    }
                } else {
                    Ok(false)
                }
            },
            _ => Err(Error::Type { expected: "stream", actual: v.kind_name() }),
        },
        PredicatePlan::Regex(pattern) => match v {
            Value::String(text) => match crate::shim::regex_is_match(
                pattern.as_str(),
                text.as_str(),
            ) {
                Some(b) => Ok(b),
                None => Err(Error::Internal),
            },
            _ => Err(Error::Type { expected: "string", actual: v.kind_name() }),
        },
        PredicatePlan::And(subs) => {
            let ghost subsv = deep_view_predicate_plans(subs@);
            let mut i: usize = 0;
            proof {
                assert(subsv.skip(0) =~= subsv);
            }
            while i < subs.len()
                invariant
                    i <= subs@.len(),
                    spec_test_list(subsv, true, vv, actv, dumpv, fueln) == spec_test_list(
                        subsv.skip(i as int),
                        true,
                        vv,
                        actv,
                        dumpv,
                        fueln,
                    ),
                decreases subs@.len() - i,
            {
                let ghost rest = subsv.skip(i as int);
                proof {
                    assert(rest[0] == subsv[i as int]);
                    assert(subsv[i as int] == subs@[i as int].deep_view());
                    assert(rest.drop_first() =~= subsv.skip(i as int + 1));
                }
                match test_pred(&subs[i], v, act, cx, fuel) {
                    Err(e) => {
                        return Err(e);
                    },
                    Ok(b) => {
                        if !b {
                            return Ok(false);
                        }
                    },
                }
                i = i + 1;
            }
            proof {
                assert(subsv.skip(subs@.len() as int) =~= Seq::<PredicatePlanV>::empty());
            }
            Ok(true)
        },
        PredicatePlan::Or(subs) => {
            let ghost subsv = deep_view_predicate_plans(subs@);
            let mut i: usize = 0;
            proof {
                assert(subsv.skip(0) =~= subsv);
            }
            while i < subs.len()
                invariant
                    i <= subs@.len(),
                    spec_test_list(subsv, false, vv, actv, dumpv, fueln) == spec_test_list(
                        subsv.skip(i as int),
                        false,
                        vv,
                        actv,
                        dumpv,
                        fueln,
                    ),
                decreases subs@.len() - i,
            {
                let ghost rest = subsv.skip(i as int);
                proof {
                    assert(rest[0] == subsv[i as int]);
                    assert(subsv[i as int] == subs@[i as int].deep_view());
                    assert(rest.drop_first() =~= subsv.skip(i as int + 1));
                }
                match test_pred(&subs[i], v, act, cx, fuel) {
                    Err(e) => {
                        return Err(e);
                    },
                    Ok(b) => {
                        if b {
                            return Ok(true);
                        }
                    },
                }
                i = i + 1;
            }
            proof {
                assert(subsv.skip(subs@.len() as int) =~= Seq::<PredicatePlanV>::empty());
            }
            Ok(false)
        },
        PredicatePlan::Not(sub) => match test_pred(sub, v, act, cx, fuel) {
            Err(e) => Err(e),
            Ok(b) => Ok(!b),
        },
    }
}

/// Test a sub-predicate across a stream's remaining elements. Mirrors
/// [`spec_quant_items`].
#[verifier::loop_isolation(false)]
fn quant_items_x(
    sub: &PredicatePlan,
    want_all: bool,
    items: &Vec<StreamItem>,
    start: usize,
    act: &Activation,
    cx: &Context,
    fuel: u64,
) -> (r: Result<bool, Error>)
    requires
        cx.dump.wf(),
    ensures
        match r {
            Ok(b) => spec_quant_items(
                sub.deep_view(),
                want_all,
                deep_view_items(items@),
                start as int,
                act.deep_view(),
                cx.dump@,
                fuel as nat,
            ) == Ok::<bool, ErrorV>(b),
            Err(e) => spec_quant_items(
                sub.deep_view(),
                want_all,
                deep_view_items(items@),
                start as int,
                act.deep_view(),
                cx.dump@,
                fuel as nat,
            ) == Err::<bool, ErrorV>(e@),
        },
    decreases fuel, sub, 3int,
{
    let ghost itemsv = deep_view_items(items@);
    let ghost subv = sub.deep_view();
    let ghost actv = act.deep_view();
    let ghost dumpv = cx.dump@;
    let ghost fueln = fuel as nat;
    let mut pos = start;
    while pos < items.len()
        invariant
            start <= pos || start >= items@.len(),
            itemsv == deep_view_items(items@),
            spec_quant_items(subv, want_all, itemsv, start as int, actv, dumpv, fueln)
                == spec_quant_items(subv, want_all, itemsv, pos as int, actv, dumpv, fueln),
        decreases items@.len() - pos,
    {
        proof {
            assert(itemsv[pos as int] == (match items@[pos as int] {
                Ok(x) => Ok::<ValueV, ErrorV>(x.deep_view()),
                Err(e) => Err::<ValueV, ErrorV>(e@),
            }));
        }
        match &items[pos] {
            Err(e) => {
                return Err(e.duplicate());
            },
            Ok(v) => match test_pred(sub, v, act, cx, fuel) {
                Err(e) => {
                    return Err(e);
                },
                Ok(b) => {
                    if b != want_all {
                        return Ok(!want_all);
                    }
                },
            },
        }
        pos = pos + 1;
    }
    Ok(want_all)
}

/// Apply a function to each of a stream's remaining elements. Mirrors
/// [`spec_map_items`].
#[verifier::loop_isolation(false)]
pub fn map_items_x(
    f: &crate::value::Function,
    items: &Vec<StreamItem>,
    start: usize,
    cx: &Context,
    fuel: u64,
) -> (r: Vec<StreamItem>)
    requires
        cx.dump.wf(),
    ensures
        deep_view_items(r@) == spec_map_items(
            f.deep_view(),
            deep_view_items(items@),
            start as int,
            cx.dump@,
            fuel as nat,
            Seq::empty(),
        ),
    decreases fuel, f, 3int,
{
    let ghost itemsv = deep_view_items(items@);
    let ghost fv = f.deep_view();
    let ghost dumpv = cx.dump@;
    let ghost fueln = fuel as nat;
    let mut out: Vec<StreamItem> = Vec::new();
    let mut pos = start;
    proof {
        assert(deep_view_items(out@) =~= Seq::<Result<ValueV, ErrorV>>::empty());
    }
    while pos < items.len()
        invariant
            start <= pos || start >= items@.len(),
            itemsv == deep_view_items(items@),
            spec_map_items(fv, itemsv, start as int, dumpv, fueln, Seq::empty()) == spec_map_items(
                fv,
                itemsv,
                pos as int,
                dumpv,
                fueln,
                deep_view_items(out@),
            ),
        decreases items@.len() - pos,
    {
        let ghost acc0 = deep_view_items(out@);
        proof {
            assert(itemsv[pos as int] == (match items@[pos as int] {
                Ok(x) => Ok::<ValueV, ErrorV>(x.deep_view()),
                Err(e) => Err::<ValueV, ErrorV>(e@),
            }));
        }
        match &items[pos] {
            Err(e) => {
                out.push(Err(e.duplicate()));
                proof {
                    assert(deep_view_items(out@) =~= acc0.push(
                        Err::<ValueV, ErrorV>(itemsv[pos as int]->Err_0),
                    ));
                }
                return out;
            },
            Ok(v) => {
                let mut args: Vec<Value> = Vec::new();
                args.push(v.duplicate());
                proof {
                    assert(deep_view_values(args@) =~= seq![itemsv[pos as int]->Ok_0]);
                }
                match f.call(args, cx, fuel) {
                    Err(e) => {
                        out.push(Err(e));
                        proof {
                            assert(deep_view_items(out@) =~= acc0.push(
                                spec_call(fv, seq![itemsv[pos as int]->Ok_0], dumpv, fueln),
                            ));
                        }
                        return out;
                    },
                    Ok(rv) => {
                        out.push(Ok(rv));
                        proof {
                            assert(deep_view_items(out@) =~= acc0.push(
                                spec_call(fv, seq![itemsv[pos as int]->Ok_0], dumpv, fueln),
                            ));
                        }
                    },
                }
            },
        }
        pos = pos + 1;
    }
    out
}

} // verus!








verus! {

broadcast use
    vstd::std_specs::vec::group_vec_axioms,
    vstd::seq::group_seq_axioms;

/// A plan of evaluation: each query expression is rewritten into one of
/// these, a sort of indirect-threaded code for a tree-walking interpreter.
pub enum Plan {
    /// A number literal.
    ConstNumber(u64),
    /// A string literal.
    ConstString(String),
    /// A stream literal over the plans of its elements.
    StreamLiteral(Vec<Plan>),
    /// The snapshot's root node.
    Root,
    /// The stream of all the snapshot's nodes.
    Nodes,
    /// The zero- or one-element stream of the node with a given id.
    NodesById(Box<Plan>),
    /// The stream of a node's edges, in declaration order.
    Edges(Box<Plan>),
    /// The first element of a stream.
    First(Box<Plan>),
    /// The streams of shortest paths from a node or stream of nodes.
    Paths(Box<Plan>),
    /// A built-in operator as a first-class function value.
    Builtin(BuiltinFn),
    /// A read of the current call's argument at an index.
    Actual(usize),
    /// A read of the current closure's captured vector at an index.
    Captured(usize),
    /// A lambda: evaluating it captures the listed locations and yields a
    /// closure of the given arity over the body.
    Lambda { name: String, arity: usize, body: Rc<Plan>, capture_list: CaptureList },
    /// A generic application of a function to one argument.
    Call { arg: Box<Plan>, fun: Box<Plan> },
    /// A filter: the stream's elements that satisfy the predicate, which
    /// tests each element in an activation built from the capture list.
    Filter { stream: Box<Plan>, capture_list: CaptureList, filter: Rc<PredicatePlan> },
}

/// A plan for evaluating a predicate on a value.
pub enum PredicatePlan {
    /// Equality against the value of an expression plan.
    Equal(Box<Plan>),
    /// A field's value satisfies the sub-predicate.
    Field { field_name: String, predicate: Box<PredicatePlan> },
    /// The stream's last element satisfies the sub-predicate.
    Ends(Box<PredicatePlan>),
    /// Some element of the stream satisfies the sub-predicate.
    Any(Box<PredicatePlan>),
    /// Every element of the stream satisfies the sub-predicate.
    All(Box<PredicatePlan>),
    /// The stream is empty.
    Empty,
    /// The stream is not empty.
    NonEmpty,
    /// The string value matches the pattern somewhere.
    Regex(String),
    /// Every sub-predicate holds.
    And(Vec<PredicatePlan>),
    /// Some sub-predicate holds.
    Or(Vec<PredicatePlan>),
    /// The sub-predicate does not hold.
    Not(Box<PredicatePlan>),
}

/// The mathematical content of a [`Plan`].
#[verifier::ext_equal]
pub enum PlanV {
    ConstNumber(u64),
    ConstString(Seq<char>),
    StreamLiteral(Seq<PlanV>),
    Root,
    Nodes,
    NodesById(Box<PlanV>),
    Edges(Box<PlanV>),
    First(Box<PlanV>),
    Paths(Box<PlanV>),
    Builtin(BuiltinFn),
    Actual(usize),
    Captured(usize),
    Lambda { name: Seq<char>, arity: usize, body: Box<PlanV>, capture_list: Seq<VarLocation> },
    Call { arg: Box<PlanV>, fun: Box<PlanV> },
    Filter { stream: Box<PlanV>, capture_list: Seq<VarLocation>, filter: Box<PredicatePlanV> },
}

/// The mathematical content of a [`PredicatePlan`].
#[verifier::ext_equal]
pub enum PredicatePlanV {
    Equal(Box<PlanV>),
    Field { field_name: Seq<char>, predicate: Box<PredicatePlanV> },
    Ends(Box<PredicatePlanV>),
    Any(Box<PredicatePlanV>),
    All(Box<PredicatePlanV>),
    Empty,
    NonEmpty,
    Regex(Seq<char>),
    And(Seq<PredicatePlanV>),
    Or(Seq<PredicatePlanV>),
    Not(Box<PredicatePlanV>),
}

impl Plan {
    /// The mathematical content of the plan.
    pub open spec fn deep_view(&self) -> PlanV
        decreases self,
    {
        match self {
            Plan::ConstNumber(n) => PlanV::ConstNumber(*n),
            Plan::ConstString(s) => PlanV::ConstString(s@),
            Plan::StreamLiteral(elts) => PlanV::StreamLiteral(deep_view_plans(elts@)),
            Plan::Root => PlanV::Root,
            Plan::Nodes => PlanV::Nodes,
            Plan::NodesById(p) => PlanV::NodesById(Box::new(p.deep_view())),
            Plan::Edges(p) => PlanV::Edges(Box::new(p.deep_view())),
            Plan::First(p) => PlanV::First(Box::new(p.deep_view())),
            Plan::Paths(p) => PlanV::Paths(Box::new(p.deep_view())),
            Plan::Builtin(b) => PlanV::Builtin(*b),
            Plan::Actual(i) => PlanV::Actual(*i),
            Plan::Captured(i) => PlanV::Captured(*i),
            Plan::Lambda { name, arity, body, capture_list } => PlanV::Lambda {
                name: name@,
                arity: *arity,
                body: Box::new((*(*body)).deep_view()),
                capture_list: capture_list.0@,
            },
            Plan::Call { arg, fun } => PlanV::Call {
                arg: Box::new(arg.deep_view()),
                fun: Box::new(fun.deep_view()),
            },
            Plan::Filter { stream, capture_list, filter } => PlanV::Filter {
                stream: Box::new(stream.deep_view()),
                capture_list: capture_list.0@,
                filter: Box::new((*(*filter)).deep_view()),
            },
        }
    }
}

/// The views of a list of plans.
pub open spec fn deep_view_plans(s: Seq<Plan>) -> Seq<PlanV>
    decreases s,
{
    Seq::new(
        s.len(),
        |i: int|
            if 0 <= i < s.len() {
                s[i].deep_view()
            } else {
                PlanV::Root
            },
    )
}

impl PredicatePlan {
    /// The mathematical content of the predicate plan.
    pub open spec fn deep_view(&self) -> PredicatePlanV
        decreases self,
    {
        match self {
            PredicatePlan::Equal(p) => PredicatePlanV::Equal(Box::new(p.deep_view())),
            PredicatePlan::Field { field_name, predicate } => PredicatePlanV::Field {
                field_name: field_name@,
                predicate: Box::new(predicate.deep_view()),
            },
            PredicatePlan::Ends(p) => PredicatePlanV::Ends(Box::new(p.deep_view())),
            PredicatePlan::Any(p) => PredicatePlanV::Any(Box::new(p.deep_view())),
            PredicatePlan::All(p) => PredicatePlanV::All(Box::new(p.deep_view())),
            PredicatePlan::Empty => PredicatePlanV::Empty,
            PredicatePlan::NonEmpty => PredicatePlanV::NonEmpty,
            PredicatePlan::Regex(pattern) => PredicatePlanV::Regex(pattern@),
            PredicatePlan::And(subs) => PredicatePlanV::And(deep_view_predicate_plans(subs@)),
            PredicatePlan::Or(subs) => PredicatePlanV::Or(deep_view_predicate_plans(subs@)),
            PredicatePlan::Not(p) => PredicatePlanV::Not(Box::new(p.deep_view())),
        }
    }
}

/// The views of a list of predicate plans.
pub open spec fn deep_view_predicate_plans(s: Seq<PredicatePlan>) -> Seq<PredicatePlanV>
    decreases s,
{
    Seq::new(
        s.len(),
        |i: int|
            if 0 <= i < s.len() {
                s[i].deep_view()
            } else {
                PredicatePlanV::Empty
            },
    )
}


/// When planning a predicate we may discover it is always true or always
/// false; then no predicate plan is produced at all.
pub enum PlanOrTrivial {
    Plan(PredicatePlan),
    Trivial(bool),
}

/// The mathematical content of a [`PlanOrTrivial`].
#[verifier::ext_equal]
pub enum PlanOrTrivialV {
    Plan(PredicatePlanV),
    Trivial(bool),
}

impl PlanOrTrivial {
    /// The mathematical content.
    pub open spec fn deep_view(&self) -> PlanOrTrivialV {
        match self {
            PlanOrTrivial::Plan(p) => PlanOrTrivialV::Plan(p.deep_view()),
            PlanOrTrivial::Trivial(b) => PlanOrTrivialV::Trivial(*b),
        }
    }
}

/// A junction's subterms with the subterm at `k` replaced by the elements
/// of `v`.
pub open spec fn spec_splice(s: Seq<PredicateV>, k: int, v: Seq<PredicateV>) -> Seq<PredicateV> {
    s.take(k) + v + s.skip(k + 1)
}

/// If a predicate only admits nodes whose id equals a specific expression,
/// that expression, together with the rest of the predicate: a bare
/// `id`-field equality contributes it, and a conjunction contributes one
/// found in any subterm, splicing the subterm's own remainder in its place.
pub open spec fn spec_required_id(p: PredicateV) -> Option<(ExprV, Seq<PredicateV>)>
    decreases p, 1int,
{
    match p {
        PredicateV::Field(name, sub) => if name == "id"@ {
            match *sub {
                PredicateV::Expr(e) => Some((*e, Seq::empty())),
                _ => None,
            }
        } else {
            None
        },
        PredicateV::And(subs) => match spec_required_id_in(subs, 0) {
            Some((k, e, child_rest)) => Some((e, spec_splice(subs, k, child_rest))),
            None => None,
        },
        _ => None,
    }
}

/// The first subterm from `k` on that requires a specific id.
pub open spec fn spec_required_id_in(subs: Seq<PredicateV>, k: int) -> Option<
    (int, ExprV, Seq<PredicateV>),
>
    decreases subs, subs.len() - k,
    when 0 <= k
{
    if k >= subs.len() {
        None
    } else {
        match spec_required_id(subs[k]) {
            Some((e, child_rest)) => Some((k, e, child_rest)),
            None => spec_required_id_in(subs, k + 1),
        }
    }
}

/// Find the required id of a predicate. Mirrors [`spec_required_id`]; the
/// remainder is returned as a freshly planned conjunction by the caller.
#[verifier::loop_isolation(false)]
pub fn find_predicate_required_id(predicate: &Predicate) -> (r: Option<(&Expr, Vec<&Predicate>)>)
    ensures
        match r {
            Some((e, rest)) => spec_required_id(predicate.deep_view()) == Some(
                (e.deep_view(), deep_view_predicate_refs(rest@)),
            ),
            None => spec_required_id(predicate.deep_view()) is None,
        },
    decreases predicate, 1int,
{
    match predicate {
        Predicate::Field(name, sub) => {
            let id_name: String = "id".to_owned();
            if *name == id_name {
                match &**sub {
                    Predicate::Expr(e) => {
                        let rest: Vec<&Predicate> = Vec::new();
                        proof {
                            assert(deep_view_predicate_refs(rest@) =~= Seq::<PredicateV>::empty());
                            assert(predicate.deep_view() == PredicateV::Field(
                                name@,
                                Box::new((**sub).deep_view()),
                            ));
                            assert((**sub).deep_view() == PredicateV::Expr(
                                Box::new(e.deep_view()),
                            ));
                            assert(name@ == "id"@);
                            assert(spec_required_id(predicate.deep_view()) == Some(
                                (e.deep_view(), Seq::<PredicateV>::empty()),
                            ));
                        }
                        Some((e, rest))
                    },
                    _ => None,
                }
            } else {
                None
            }
        },
        Predicate::And(subs) => {
            let ghost sview = deep_view_predicates(subs@);
            let mut k: usize = 0;
            while k < subs.len()
                invariant
                    k <= subs@.len(),
                    sview == deep_view_predicates(subs@),
                    spec_required_id_in(sview, 0) == spec_required_id_in(sview, k as int),
                decreases subs@.len() - k,
            {
                proof {
                    assert(sview[k as int] == subs@[k as int].deep_view());
                }
                match find_predicate_required_id(&subs[k]) {
                    Some((e, child_rest)) => {
                        let mut rest: Vec<&Predicate> = Vec::new();
                        let mut i: usize = 0;
                        while i < k
                            invariant
                                i <= k,
                                k < subs@.len(),
                                sview == deep_view_predicates(subs@),
                                deep_view_predicate_refs(rest@) =~= sview.take(i as int),
                            decreases k - i,
                        {
                            rest.push(&subs[i]);
                            proof {
                                assert(deep_view_predicate_refs(rest@) =~= sview.take(
                                    i as int + 1,
                                ));
                            }
                            i = i + 1;
                        }
                        let ghost child_view = deep_view_predicate_refs(child_rest@);
                        let mut j: usize = 0;
                        while j < child_rest.len()
                            invariant
                                j <= child_rest@.len(),
                                k < subs@.len(),
                                sview == deep_view_predicates(subs@),
                                child_view == deep_view_predicate_refs(child_rest@),
                                deep_view_predicate_refs(rest@) =~= sview.take(k as int)
                                    + child_view.take(j as int),
                            decreases child_rest@.len() - j,
                        {
                            let ghost prev = deep_view_predicate_refs(rest@);
                            rest.push(child_rest[j]);
                            proof {
                                assert(deep_view_predicate_refs(rest@) =~= prev.push(
                                    rest@[rest@.len() - 1].deep_view(),
                                ));
                                assert(rest@[rest@.len() - 1].deep_view() == child_view[j as int]);
                                assert(deep_view_predicate_refs(rest@) =~= sview.take(k as int)
                                    + child_view.take(j as int + 1));
                            }
                            j = j + 1;
                        }
                        let mut m: usize = k + 1;
                        while m < subs.len()
                            invariant
                                k < m <= subs@.len(),
                                sview == deep_view_predicates(subs@),
                                child_view == deep_view_predicate_refs(child_rest@),
                                deep_view_predicate_refs(rest@) =~= sview.take(k as int)
                                    + child_view + sview.subrange(k as int + 1, m as int),
                            decreases subs@.len() - m,
                        {
                            let ghost prev = deep_view_predicate_refs(rest@);
                            rest.push(&subs[m]);
                            proof {
                                assert(deep_view_predicate_refs(rest@) =~= prev.push(
                                    rest@[rest@.len() - 1].deep_view(),
                                ));
                                assert(rest@[rest@.len() - 1].deep_view() == sview[m as int]);
                                assert(deep_view_predicate_refs(rest@) =~= sview.take(k as int)
                                    + child_view + sview.subrange(k as int + 1, m as int + 1));
                            }
                            m = m + 1;
                        }
                        proof {
                            assert(child_view.take(child_rest@.len() as int) =~= child_view);
                            assert(sview.subrange(k as int + 1, subs@.len() as int) =~= sview.skip(
                                k as int + 1,
                            ));
                            assert(deep_view_predicate_refs(rest@) =~= spec_splice(
                                sview,
                                k as int,
                                child_view,
                            ));
                        }
                        return Some((e, rest));
                    },
                    None => {},
                }
                k = k + 1;
            }
            None
        },
        _ => None,
    }
}

/// The views of a list of borrowed predicates.
pub open spec fn deep_view_predicate_refs(s: Seq<&Predicate>) -> Seq<PredicateV>
    decreases s,
{
    Seq::new(
        s.len(),
        |i: int|
            if 0 <= i < s.len() {
                s[i].deep_view()
            } else {
                PredicateV::Regex(Seq::empty())
            },
    )
}

} // verus!

