//! The properties the library states of itself, each proved from the
//! contracts of the modules it speaks about.

use vstd::prelude::*;
use crate::ast::{psize, sum_psize, ExprV, LambdaId, PredicateV, UseId, VarV};
use crate::ast::{lemma_psize_pos, lemma_sum_psize_elem};
use crate::fun::{spec_label_expr, spec_label_exprs, spec_label_pred, spec_label_preds};
use crate::dump::DumpV;
use crate::fun::{spec_addr_position, spec_build_layouts, spec_build_referents, spec_layout_lookup, ActivationV, LambdaInfoV, LayoutV, UseInfo, VarAddr, VarLocation};
use crate::query::{spec_compile, StaticErrorV};
use crate::run::{spec_filter_items, spec_get_edge_field, spec_get_node_field, spec_plan_expr, spec_plan_filter, spec_plan_junction, spec_plan_predicate, spec_required_id, spec_run, spec_stream_last, spec_test, spec_test_list, spec_value_eq, PlanOrTrivialV, PlanV, PredicatePlanV};
use crate::fun::ClosureLayoutsV;
use crate::shim::{regex_compiles, regex_matches};
use crate::value::{spec_kind_name, ErrorV, ValueV};

verus! {

broadcast use
    vstd::std_specs::vec::group_vec_axioms,
    vstd::seq::group_seq_axioms;

/// One step along a resolvable edge: from a present node, take the edge at
/// the given index; the step exists only when the referent is itself
/// present.
pub open spec fn spec_follow(d: DumpV, id: u64, steps: Seq<int>) -> Option<u64>
    decreases steps.len(),
{
    if steps.len() == 0 {
        Some(id)
    } else {
        match d.find_node(id) {
            None => None,
            Some(n) => if 0 <= steps[0] < n.edges.len() {
                match n.edges[steps[0]].referent {
                    Some(r) => if d.find_node(r) is Some {
                        spec_follow(d, r, steps.drop_first())
                    } else {
                        None
                    },
                    None => None,
                }
            } else {
                None
            },
        }
    }
}

/// Every node reachable from a well-formed snapshot's root via a chain of
/// resolvable edges is present in the index.
pub proof fn lemma_reachable_from_root_present(d: DumpV, steps: Seq<int>)
    requires
        d.wf(),
    ensures
        spec_follow(d, d.root_id, steps) matches Some(id) ==> d.find_node(id) is Some,
{
    lemma_follow_present(d, d.root_id, steps);
}

/// Presence is preserved along every resolvable chain.
proof fn lemma_follow_present(d: DumpV, id: u64, steps: Seq<int>)
    requires
        d.find_node(id) is Some,
    ensures
        spec_follow(d, id, steps) matches Some(out) ==> d.find_node(out) is Some,
    decreases steps.len(),
{
    if steps.len() > 0 {
        match d.find_node(id) {
            Some(n) => {
                if 0 <= steps[0] < n.edges.len() {
                    match n.edges[steps[0]].referent {
                        Some(r) => {
                            if d.find_node(r) is Some {
                                lemma_follow_present(d, r, steps.drop_first());
                            }
                        },
                        None => {},
                    }
                }
            },
            None => {},
        }
    }
}

/// String interning is position-stable: re-reading the same snapshot bytes
/// resolves every back-reference the same way, because decoding is a
/// function of the bytes; two snapshots decoded from equal bytes have equal
/// content, interning tables included.
pub proof fn lemma_interning_position_stable(
    path: Seq<char>,
    bytes: Seq<u8>,
    d1: DumpV,
    d2: DumpV,
)
    requires
        crate::reader::spec_from_bytes(path, bytes) == Ok::<DumpV, crate::reader::DumpError>(d1),
        crate::reader::spec_from_bytes(path, bytes) == Ok::<DumpV, crate::reader::DumpError>(d2),
    ensures
        d1 == d2,
        d1.one_byte_strings == d2.one_byte_strings,
        d1.two_byte_strings == d2.two_byte_strings,
{
}

/// Planning is deterministic: for a fixed expression the plan tree is
/// structurally identical across runs.
pub proof fn lemma_plan_deterministic(e: ExprV, p1: PlanV, p2: PlanV)
    requires
        spec_compile(e) == Ok::<PlanV, StaticErrorV>(p1),
        spec_compile(e) == Ok::<PlanV, StaticErrorV>(p2),
    ensures
        p1 == p2,
{
}

/// Every use-id the analysis covers has exactly one resolved location, read
/// from its enclosing lambda's layout.
pub proof fn lemma_every_use_resolved(
    uses: Seq<UseInfo>,
    layouts: Seq<LayoutV>,
    refs: Seq<VarLocation>,
)
    requires
        spec_build_referents(uses, layouts, 0, Seq::empty()) == Some(refs),
    ensures
        refs.len() == uses.len(),
        forall|u: int|
            0 <= u < uses.len() ==> {
                let l = (#[trigger] uses[u]).lambda->Some_0;
                &&& uses[u].lambda is Some
                &&& l.0 < layouts.len()
                &&& spec_layout_lookup(layouts[l.0 as int], l, uses[u].referent) == Some(refs[u])
            },
{
    lemma_referents_fold(uses, layouts, 0, Seq::empty(), refs);
}

/// The referent fold preserves its accumulator as a prefix.
proof fn lemma_referents_prefix(
    uses: Seq<UseInfo>,
    layouts: Seq<LayoutV>,
    k: int,
    acc: Seq<VarLocation>,
    refs: Seq<VarLocation>,
)
    requires
        0 <= k <= uses.len(),
        spec_build_referents(uses, layouts, k, acc) == Some(refs),
    ensures
        refs.len() == acc.len() + (uses.len() - k),
        forall|u: int| 0 <= u < acc.len() ==> refs[u] == acc[u],
    decreases uses.len() - k,
{
    if k == uses.len() {
        assert(refs == acc);
    } else {
        match uses[k].lambda {
            None => {},
            Some(l) => {
                if l.0 < layouts.len() {
                    match spec_layout_lookup(layouts[l.0 as int], l, uses[k].referent) {
                        Some(loc) => {
                            lemma_referents_prefix(uses, layouts, k + 1, acc.push(loc), refs);
                        },
                        None => {},
                    }
                }
            },
        }
    }
}

/// The referent fold resolves one location per remaining use, in order.
proof fn lemma_referents_fold(
    uses: Seq<UseInfo>,
    layouts: Seq<LayoutV>,
    k: int,
    acc: Seq<VarLocation>,
    refs: Seq<VarLocation>,
)
    requires
        0 <= k <= uses.len(),
        acc.len() == k,
        spec_build_referents(uses, layouts, k, acc) == Some(refs),
    ensures
        refs.len() == uses.len(),
        forall|u: int|
            k <= u < uses.len() ==> {
                let l = (#[trigger] uses[u]).lambda->Some_0;
                &&& uses[u].lambda is Some
                &&& l.0 < layouts.len()
                &&& spec_layout_lookup(layouts[l.0 as int], l, uses[u].referent) == Some(refs[u])
            },
    decreases uses.len() - k,
{
    lemma_referents_prefix(uses, layouts, k, acc, refs);
    if k < uses.len() {
        match uses[k].lambda {
            None => {},
            Some(l) => {
                if l.0 < layouts.len() {
                    match spec_layout_lookup(layouts[l.0 as int], l, uses[k].referent) {
                        Some(loc) => {
                            lemma_referents_prefix(uses, layouts, k + 1, acc.push(loc), refs);
                            assert(refs[k] == loc);
                            lemma_referents_fold(uses, layouts, k + 1, acc.push(loc), refs);
                        },
                        None => {},
                    }
                }
            },
        }
    }
}

/// For every laid-out lambda, the captured vector's length equals the size
/// of its captured-variable set, its arity is kept, and the capture list has
/// one location per captured address.
pub proof fn lemma_capture_vector_length(lams: Seq<LambdaInfoV>, layouts: Seq<LayoutV>)
    requires
        spec_build_layouts(lams, 0, Seq::empty()) == Some(layouts),
    ensures
        layouts.len() == lams.len(),
        forall|k: int|
            0 <= k < lams.len() ==> {
                &&& (#[trigger] layouts[k]).arity == lams[k].arity
                &&& layouts[k].captured_addrs.len() == lams[k].captured.len()
                &&& layouts[k].captured.len() == lams[k].captured.len()
            },
{
    lemma_layouts_fold(lams, 0, Seq::empty(), layouts);
}

/// The location list a capture set resolves to has one entry per address.
proof fn lemma_capture_locs_len(
    parent: LayoutV,
    parent_id: crate::ast::LambdaId,
    addrs: Seq<crate::fun::VarAddr>,
    locs: Seq<VarLocation>,
)
    requires
        crate::fun::spec_capture_locs(parent, parent_id, addrs) == Some(locs),
    ensures
        locs.len() == addrs.len(),
    decreases addrs.len(),
{
    if addrs.len() > 0 {
        match crate::fun::spec_capture_locs(parent, parent_id, addrs.drop_last()) {
            Some(s) => {
                lemma_capture_locs_len(parent, parent_id, addrs.drop_last(), s);
            },
            None => {},
        }
    }
}

/// The layout fold preserves its accumulator as a prefix.
proof fn lemma_layouts_prefix(
    lams: Seq<LambdaInfoV>,
    k: int,
    acc: Seq<LayoutV>,
    layouts: Seq<LayoutV>,
)
    requires
        0 <= k <= lams.len(),
        spec_build_layouts(lams, k, acc) == Some(layouts),
    ensures
        layouts.len() == acc.len() + (lams.len() - k),
        forall|j: int| 0 <= j < acc.len() ==> layouts[j] == acc[j],
    decreases lams.len() - k,
{
    if k == lams.len() {
        assert(layouts == acc);
    } else {
        let info = lams[k];
        match info.parent {
            None => {
                if info.captured.len() == 0 {
                    lemma_layouts_prefix(
                        lams,
                        k + 1,
                        acc.push(
                            LayoutV {
                                arity: info.arity,
                                captured_addrs: Seq::empty(),
                                captured: Seq::empty(),
                            },
                        ),
                        layouts,
                    );
                }
            },
            Some(p) => {
                if p.0 < k && acc.len() == k {
                    match crate::fun::spec_capture_locs(acc[p.0 as int], p, info.captured) {
                        Some(locs) => {
                            lemma_layouts_prefix(
                                lams,
                                k + 1,
                                acc.push(
                                    LayoutV {
                                        arity: info.arity,
                                        captured_addrs: info.captured,
                                        captured: locs,
                                    },
                                ),
                                layouts,
                            );
                        },
                        None => {},
                    }
                }
            },
        }
    }
}

/// The layout fold keeps arity and capture-set size per remaining lambda.
proof fn lemma_layouts_fold(
    lams: Seq<LambdaInfoV>,
    k: int,
    acc: Seq<LayoutV>,
    layouts: Seq<LayoutV>,
)
    requires
        0 <= k <= lams.len(),
        acc.len() == k,
        spec_build_layouts(lams, k, acc) == Some(layouts),
    ensures
        layouts.len() == lams.len(),
        forall|j: int|
            k <= j < lams.len() ==> {
                &&& (#[trigger] layouts[j]).arity == lams[j].arity
                &&& layouts[j].captured_addrs.len() == lams[j].captured.len()
                &&& layouts[j].captured.len() == lams[j].captured.len()
            },
    decreases lams.len() - k,
{
    lemma_layouts_prefix(lams, k, acc, layouts);
    if k < lams.len() {
        let info = lams[k];
        match info.parent {
            None => {
                if info.captured.len() == 0 {
                    let entry = LayoutV {
                        arity: info.arity,
                        captured_addrs: Seq::empty(),
                        captured: Seq::empty(),
                    };
                    lemma_layouts_prefix(lams, k + 1, acc.push(entry), layouts);
                    assert(layouts[k] == entry);
                    lemma_layouts_fold(lams, k + 1, acc.push(entry), layouts);
                }
            },
            Some(p) => {
                if p.0 < k && acc.len() == k {
                    match crate::fun::spec_capture_locs(acc[p.0 as int], p, info.captured) {
                        Some(locs) => {
                            lemma_capture_locs_len(acc[p.0 as int], p, info.captured, locs);
                            let entry = LayoutV {
                                arity: info.arity,
                                captured_addrs: info.captured,
                                captured: locs,
                            };
                            lemma_layouts_prefix(lams, k + 1, acc.push(entry), layouts);
                            assert(layouts[k] == entry);
                            lemma_layouts_fold(lams, k + 1, acc.push(entry), layouts);
                        },
                        None => {},
                    }
                }
            },
        }
    }
}

/// An empty conjunction is trivially true; an empty disjunction is
/// trivially false.
pub proof fn lemma_empty_junctions(a: crate::fun::ClosureLayoutsV)
    ensures
        spec_plan_predicate(PredicateV::And(Seq::empty()), a) == Ok::<
            PlanOrTrivialV,
            StaticErrorV,
        >(PlanOrTrivialV::Trivial(true)),
        spec_plan_predicate(PredicateV::Or(Seq::empty()), a) == Ok::<
            PlanOrTrivialV,
            StaticErrorV,
        >(PlanOrTrivialV::Trivial(false)),
{
    assert(spec_plan_junction(Seq::empty(), true, a, Seq::empty()) == Ok::<
        PlanOrTrivialV,
        StaticErrorV,
    >(PlanOrTrivialV::Trivial(true)));
    assert(spec_plan_junction(Seq::empty(), false, a, Seq::empty()) == Ok::<
        PlanOrTrivialV,
        StaticErrorV,
    >(PlanOrTrivialV::Trivial(false)));
}

/// Filtering by a predicate the planner folds to true leaves the stream
/// plan unchanged; one folded to false plans the empty stream. Stated for
/// filters the id-hoist rewrite leaves alone: a hoisted filter is rewritten
/// into an id lookup instead of being dropped.
pub proof fn lemma_trivial_filter_fold(
    id: crate::ast::LambdaId,
    stream: ExprV,
    predicate: PredicateV,
    a: crate::fun::ClosureLayoutsV,
)
    requires
        stream == ExprV::Var(crate::ast::VarV::Nodes) ==> spec_required_id(predicate) is None,
    ensures
        spec_plan_predicate(predicate, a) == Ok::<PlanOrTrivialV, StaticErrorV>(
            PlanOrTrivialV::Trivial(true),
        ) ==> spec_plan_filter(id, stream, predicate, a) == (if stream == ExprV::Var(
            crate::ast::VarV::Nodes,
        ) {
            Ok::<PlanV, StaticErrorV>(PlanV::Nodes)
        } else {
            spec_plan_expr(stream, a)
        }),
        spec_plan_predicate(predicate, a) == Ok::<PlanOrTrivialV, StaticErrorV>(
            PlanOrTrivialV::Trivial(false),
        ) ==> (spec_plan_expr(stream, a) is Ok ==> spec_plan_filter(id, stream, predicate, a)
            == Ok::<PlanV, StaticErrorV>(PlanV::StreamLiteral(Seq::empty()))),
{
}

/// A one-element conjunction tests exactly as its sole subplan does.
pub proof fn lemma_singleton_conjunction_tests_same(
    pp: PredicatePlanV,
    v: ValueV,
    act: ActivationV,
    dump: DumpV,
    fuel: nat,
)
    ensures
        spec_test(PredicatePlanV::And(seq![pp]), v, act, dump, fuel) == spec_test(
            pp,
            v,
            act,
            dump,
            fuel,
        ),
{
    let ps = seq![pp];
    assert(ps[0] == pp);
    assert(ps.drop_first() =~= Seq::<PredicatePlanV>::empty());
    assert(spec_test(PredicatePlanV::And(ps), v, act, dump, fuel) == spec_test_list(
        ps,
        true,
        v,
        act,
        dump,
        fuel,
    ));
    match spec_test(pp, v, act, dump, fuel) {
        Err(e) => {
            assert(spec_test_list(ps, true, v, act, dump, fuel) == Err::<bool, ErrorV>(e));
        },
        Ok(b) => {
            if b {
                assert(spec_test_list(ps.drop_first(), true, v, act, dump, fuel) == Ok::<
                    bool,
                    ErrorV,
                >(true));
                assert(spec_test_list(ps, true, v, act, dump, fuel) == Ok::<bool, ErrorV>(true));
            } else {
                assert(spec_test_list(ps, true, v, act, dump, fuel) == Ok::<bool, ErrorV>(false));
            }
        },
    }
}

/// The stream elements that satisfy a predicate, in the stream's order.
pub open spec fn spec_matching_elements(
    pp: PredicatePlanV,
    items: Seq<Result<ValueV, ErrorV>>,
    pos: int,
    act: ActivationV,
    dump: DumpV,
    fuel: nat,
) -> Seq<Result<ValueV, ErrorV>>
    decreases items.len() - pos,
{
    if pos < 0 || pos >= items.len() {
        Seq::empty()
    } else {
        let rest = spec_matching_elements(pp, items, pos + 1, act, dump, fuel);
        match items[pos] {
            Ok(v) => if spec_test(pp, v, act, dump, fuel) == Ok::<bool, ErrorV>(true) {
                seq![Ok::<ValueV, ErrorV>(v)] + rest
            } else {
                rest
            },
            Err(_) => rest,
        }
    }
}

/// Executing a filter yields exactly the stream's elements that satisfy the
/// predicate, in the stream's order: when every remaining element is a value
/// and every test answers, the filtered stream holds the satisfying values
/// and nothing else.
pub proof fn lemma_filter_yields_matching_elements(
    pp: PredicatePlanV,
    items: Seq<Result<ValueV, ErrorV>>,
    pos: int,
    act: ActivationV,
    dump: DumpV,
    fuel: nat,
)
    requires
        0 <= pos <= items.len(),
        forall|k: int| pos <= k < items.len() ==> (#[trigger] items[k]) is Ok,
        forall|k: int|
            pos <= k < items.len() ==> (#[trigger] spec_test(
                pp,
                items[k]->Ok_0,
                act,
                dump,
                fuel,
            )) is Ok,
    ensures
        spec_filter_items(pp, items, pos, act, dump, fuel, Seq::empty())
            == spec_matching_elements(pp, items, pos, act, dump, fuel),
{
    lemma_filter_items_acc(pp, items, pos, act, dump, fuel, Seq::empty());
    assert(Seq::empty() + spec_matching_elements(pp, items, pos, act, dump, fuel)
        =~= spec_matching_elements(pp, items, pos, act, dump, fuel));
}

/// The filter fold appends exactly the matching elements to its accumulator.
proof fn lemma_filter_items_acc(
    pp: PredicatePlanV,
    items: Seq<Result<ValueV, ErrorV>>,
    pos: int,
    act: ActivationV,
    dump: DumpV,
    fuel: nat,
    acc: Seq<Result<ValueV, ErrorV>>,
)
    requires
        0 <= pos <= items.len(),
        forall|k: int| pos <= k < items.len() ==> (#[trigger] items[k]) is Ok,
        forall|k: int|
            pos <= k < items.len() ==> (#[trigger] spec_test(
                pp,
                items[k]->Ok_0,
                act,
                dump,
                fuel,
            )) is Ok,
    ensures
        spec_filter_items(pp, items, pos, act, dump, fuel, acc) == acc + spec_matching_elements(
            pp,
            items,
            pos,
            act,
            dump,
            fuel,
        ),
    decreases items.len() - pos,
{
    if pos == items.len() {
        assert(spec_matching_elements(pp, items, pos, act, dump, fuel) =~= Seq::<
            Result<ValueV, ErrorV>,
        >::empty());
        assert(acc + Seq::<Result<ValueV, ErrorV>>::empty() =~= acc);
    } else {
        let v = items[pos]->Ok_0;
        let rest = spec_matching_elements(pp, items, pos + 1, act, dump, fuel);
        match spec_test(pp, v, act, dump, fuel) {
            Ok(true) => {
                lemma_filter_items_acc(pp, items, pos + 1, act, dump, fuel, acc.push(Ok(v)));
                assert(acc.push(Ok::<ValueV, ErrorV>(v)) + rest =~= acc + (seq![
                    Ok::<ValueV, ErrorV>(v),
                ] + rest));
            },
            Ok(false) => {
                lemma_filter_items_acc(pp, items, pos + 1, act, dump, fuel, acc);
            },
            Err(_) => {},
        }
    }
}


/// An expression with its labels erased: what label assignment may not
/// change.
pub open spec fn erase_expr(e: ExprV) -> ExprV
    decreases e,
{
    match e {
        ExprV::Number(_) => e,
        ExprV::String(_) => e,
        ExprV::Var(v) => ExprV::Var(
            match v {
                VarV::Lexical { id, name } => VarV::Lexical { id: UseId(0), name },
                _ => v,
            },
        ),
        ExprV::StreamLiteral(elts) => ExprV::StreamLiteral(erase_exprs(elts)),
        ExprV::PredicateOp { id, stream, op, predicate } => ExprV::PredicateOp {
            id: LambdaId(0),
            stream: Box::new(erase_expr(*stream)),
            op,
            predicate: Box::new(erase_pred(*predicate)),
        },
        ExprV::App { arg, fun } => ExprV::App {
            arg: Box::new(erase_expr(*arg)),
            fun: Box::new(erase_expr(*fun)),
        },
        ExprV::Lambda { id, formals, body } => ExprV::Lambda {
            id: LambdaId(0),
            formals,
            body: Box::new(erase_expr(*body)),
        },
    }
}

/// A list of expressions with labels erased.
pub open spec fn erase_exprs(s: Seq<ExprV>) -> Seq<ExprV>
    decreases s,
{
    Seq::new(
        s.len(),
        |i: int|
            if 0 <= i < s.len() {
                erase_expr(s[i])
            } else {
                ExprV::Number(0)
            },
    )
}

/// A predicate with labels erased.
pub open spec fn erase_pred(p: PredicateV) -> PredicateV
    decreases p,
{
    match p {
        PredicateV::Expr(e) => PredicateV::Expr(Box::new(erase_expr(*e))),
        PredicateV::Field(name, sub) => PredicateV::Field(name, Box::new(erase_pred(*sub))),
        PredicateV::Ends(sub) => PredicateV::Ends(Box::new(erase_pred(*sub))),
        PredicateV::Any(sub) => PredicateV::Any(Box::new(erase_pred(*sub))),
        PredicateV::All(sub) => PredicateV::All(Box::new(erase_pred(*sub))),
        PredicateV::Regex(pattern) => PredicateV::Regex(pattern),
        PredicateV::And(subs) => PredicateV::And(erase_preds(subs)),
        PredicateV::Or(subs) => PredicateV::Or(erase_preds(subs)),
        PredicateV::Not(sub) => PredicateV::Not(Box::new(erase_pred(*sub))),
    }
}

/// A list of predicates with labels erased.
pub open spec fn erase_preds(s: Seq<PredicateV>) -> Seq<PredicateV>
    decreases s,
{
    Seq::new(
        s.len(),
        |i: int|
            if 0 <= i < s.len() {
                erase_pred(s[i])
            } else {
                PredicateV::Regex(Seq::empty())
            },
    )
}

/// Label assignment renumbers ids and changes nothing else: the labeled
/// expression equals the input up to id renumbering.
pub proof fn lemma_label_preserves_shape(e: ExprV, nl: int, nu: int)
    ensures
        spec_label_expr(e, nl, nu) matches Some((e2, nl2, nu2)) ==> erase_expr(e2) == erase_expr(
            e,
        ),
    decreases e, 0int,
{
    match e {
        ExprV::Number(_) => {},
        ExprV::String(_) => {},
        ExprV::Var(_) => {},
        ExprV::StreamLiteral(elts) => {
            lemma_label_exprs_shape(elts, Seq::empty(), nl, nu);
            if spec_label_exprs(elts, Seq::empty(), nl, nu) is Some {
                let (out, _, _) = spec_label_exprs(elts, Seq::empty(), nl, nu)->Some_0;
                assert(erase_exprs(Seq::empty()) =~= Seq::<ExprV>::empty());
                assert(Seq::<ExprV>::empty() + erase_exprs(elts) =~= erase_exprs(elts));
            }
        },
        ExprV::App { arg, fun } => {
            lemma_label_preserves_shape(*arg, nl, nu);
            if spec_label_expr(*arg, nl, nu) is Some {
                let (arg2, nl1, nu1) = spec_label_expr(*arg, nl, nu)->Some_0;
                lemma_label_preserves_shape(*fun, nl1, nu1);
            }
        },
        ExprV::Lambda { id, formals, body } => {
            if nl < usize::MAX {
                lemma_label_preserves_shape(*body, nl + 1, nu);
            }
        },
        ExprV::PredicateOp { id, stream, op, predicate } => {
            if nl < usize::MAX {
                lemma_label_preserves_shape(*stream, nl + 1, nu);
                if spec_label_expr(*stream, nl + 1, nu) is Some {
                    let (s2, nl2, nu2) = spec_label_expr(*stream, nl + 1, nu)->Some_0;
                    lemma_label_pred_shape(*predicate, nl2, nu2);
                }
            }
        },
    }
}

/// Labeling a list of expressions keeps each one's shape, appended after
/// the accumulator's.
proof fn lemma_label_exprs_shape(s: Seq<ExprV>, acc: Seq<ExprV>, nl: int, nu: int)
    ensures
        spec_label_exprs(s, acc, nl, nu) matches Some((out, nl2, nu2)) ==> erase_exprs(out)
            == erase_exprs(acc) + erase_exprs(s),
    decreases s, 1int,
{
    if s.len() == 0 {
        if spec_label_exprs(s, acc, nl, nu) is Some {
            assert(erase_exprs(s) =~= Seq::<ExprV>::empty());
            assert(erase_exprs(acc) + Seq::<ExprV>::empty() =~= erase_exprs(acc));
        }
    } else {
        lemma_label_preserves_shape(s[0], nl, nu);
        match spec_label_expr(s[0], nl, nu) {
            Some((e2, nl1, nu1)) => {
                lemma_label_exprs_shape(s.drop_first(), acc.push(e2), nl1, nu1);
                if spec_label_exprs(s.drop_first(), acc.push(e2), nl1, nu1) is Some {
                    assert(erase_exprs(acc.push(e2)) =~= erase_exprs(acc).push(erase_expr(e2)));
                    assert(erase_exprs(s) =~= seq![erase_expr(s[0])] + erase_exprs(
                        s.drop_first(),
                    )) by {
                        assert(s.drop_first() =~= s.skip(1));
                        assert forall|i: int| 0 <= i < s.len() implies erase_exprs(s)[i] == (seq![
                            erase_expr(s[0]),
                        ] + erase_exprs(s.drop_first()))[i] by {
                            if i > 0 {
                                assert(s.drop_first()[i - 1] == s[i]);
                            }
                        }
                    }
                    assert(erase_exprs(acc).push(erase_expr(e2)) + erase_exprs(s.drop_first())
                        =~= erase_exprs(acc) + (seq![erase_expr(s[0])] + erase_exprs(
                        s.drop_first(),
                    )));
                }
            },
            None => {},
        }
    }
}

/// Labeling keeps a predicate's shape.
proof fn lemma_label_pred_shape(p: PredicateV, nl: int, nu: int)
    ensures
        spec_label_pred(p, nl, nu) matches Some((p2, nl2, nu2)) ==> erase_pred(p2) == erase_pred(
            p,
        ),
    decreases p, 0int,
{
    match p {
        PredicateV::Expr(e) => {
            lemma_label_preserves_shape(*e, nl, nu);
        },
        PredicateV::Field(_, sub) => {
            lemma_label_pred_shape(*sub, nl, nu);
        },
        PredicateV::Ends(sub) => {
            lemma_label_pred_shape(*sub, nl, nu);
        },
        PredicateV::Any(sub) => {
            lemma_label_pred_shape(*sub, nl, nu);
        },
        PredicateV::All(sub) => {
            lemma_label_pred_shape(*sub, nl, nu);
        },
        PredicateV::Regex(_) => {},
        PredicateV::And(subs) => {
            lemma_label_preds_shape(subs, Seq::empty(), nl, nu);
            if spec_label_preds(subs, Seq::empty(), nl, nu) is Some {
                assert(erase_preds(Seq::empty()) =~= Seq::<PredicateV>::empty());
                assert(Seq::<PredicateV>::empty() + erase_preds(subs) =~= erase_preds(subs));
            }
        },
        PredicateV::Or(subs) => {
            lemma_label_preds_shape(subs, Seq::empty(), nl, nu);
            if spec_label_preds(subs, Seq::empty(), nl, nu) is Some {
                assert(erase_preds(Seq::empty()) =~= Seq::<PredicateV>::empty());
                assert(Seq::<PredicateV>::empty() + erase_preds(subs) =~= erase_preds(subs));
            }
        },
        PredicateV::Not(sub) => {
            lemma_label_pred_shape(*sub, nl, nu);
        },
    }
}

/// Labeling a junction's subterms keeps each one's shape.
proof fn lemma_label_preds_shape(s: Seq<PredicateV>, acc: Seq<PredicateV>, nl: int, nu: int)
    ensures
        spec_label_preds(s, acc, nl, nu) matches Some((out, nl2, nu2)) ==> erase_preds(out)
            == erase_preds(acc) + erase_preds(s),
    decreases s, 1int,
{
    if s.len() == 0 {
        if spec_label_preds(s, acc, nl, nu) is Some {
            assert(erase_preds(s) =~= Seq::<PredicateV>::empty());
            assert(erase_preds(acc) + Seq::<PredicateV>::empty() =~= erase_preds(acc));
        }
    } else {
        lemma_label_pred_shape(s[0], nl, nu);
        match spec_label_pred(s[0], nl, nu) {
            Some((p2, nl1, nu1)) => {
                lemma_label_preds_shape(s.drop_first(), acc.push(p2), nl1, nu1);
                if spec_label_preds(s.drop_first(), acc.push(p2), nl1, nu1) is Some {
                    assert(erase_preds(acc.push(p2)) =~= erase_preds(acc).push(erase_pred(p2)));
                    assert(erase_preds(s) =~= seq![erase_pred(s[0])] + erase_preds(
                        s.drop_first(),
                    )) by {
                        assert forall|i: int| 0 <= i < s.len() implies erase_preds(s)[i] == (seq![
                            erase_pred(s[0]),
                        ] + erase_preds(s.drop_first()))[i] by {
                            if i > 0 {
                                assert(s.drop_first()[i - 1] == s[i]);
                            }
                        }
                    }
                    assert(erase_preds(acc).push(erase_pred(p2)) + erase_preds(s.drop_first())
                        =~= erase_preds(acc) + (seq![erase_pred(s[0])] + erase_preds(
                        s.drop_first(),
                    )));
                }
            },
            None => {},
        }
    }
}


/// The predicate plan that keeps exactly the nodes with a given id.
pub open spec fn spec_id_equals(k: u64) -> PredicatePlanV {
    PredicatePlanV::Field {
        field_name: "id"@,
        predicate: Box::new(PredicatePlanV::Equal(Box::new(PlanV::ConstNumber(k)))),
    }
}

/// The id-hoist rewrite is sound: over a well-formed snapshot, filtering the
/// stream of all nodes by an id-equality predicate yields exactly what the
/// direct id lookup yields — the one node with that id, or nothing.
pub proof fn lemma_id_filter_is_lookup(d: DumpV, k: u64, act: ActivationV, fuel: nat)
    requires
        d.wf(),
    ensures
        spec_filter_items(
            spec_id_equals(k),
            Seq::new(d.nodes.len(), |i: int| Ok::<ValueV, ErrorV>(ValueV::Node(d.nodes[i]))),
            0,
            act,
            d,
            fuel,
            Seq::empty(),
        ) == (match d.find_node(k) {
            Some(n) => seq![Ok::<ValueV, ErrorV>(ValueV::Node(n))],
            None => Seq::<Result<ValueV, ErrorV>>::empty(),
        }),
{
    let items = Seq::new(d.nodes.len(), |i: int| Ok::<ValueV, ErrorV>(ValueV::Node(d.nodes[i])));
    let pp = spec_id_equals(k);
    assert forall|j: int| 0 <= j < items.len() implies (#[trigger] spec_test(
        pp,
        items[j]->Ok_0,
        act,
        d,
        fuel,
    )) == Ok::<bool, ErrorV>(d.nodes[j].id == k) by {
        reveal_with_fuel(spec_test, 2);
        assert(items[j] == Ok::<ValueV, ErrorV>(ValueV::Node(d.nodes[j])));
        assert(crate::run::spec_get_node_field(d.nodes[j], "id"@) == Ok::<
            Option<ValueV>,
            ErrorV,
        >(Some(ValueV::Number(d.nodes[j].id))));
        assert(spec_test(
            PredicatePlanV::Equal(Box::new(PlanV::ConstNumber(k))),
            ValueV::Number(d.nodes[j].id),
            act,
            d,
            fuel,
        ) == Ok::<bool, ErrorV>(d.nodes[j].id == k));
    }
    lemma_filter_yields_matching_elements(pp, items, 0, act, d, fuel);
    lemma_matching_is_lookup(d, k, pp, items, 0, act, fuel);
    if d.find_node(k) is None {
        assert(spec_matching_elements(pp, items, 0, act, d, fuel) =~= Seq::<
            Result<ValueV, ErrorV>,
        >::empty());
    }
}

/// With unique ids, the matching elements of the all-nodes stream from `pos`
/// on are the at-most-one node with the sought id at or after `pos`.
proof fn lemma_matching_is_lookup(
    d: DumpV,
    k: u64,
    pp: PredicatePlanV,
    items: Seq<Result<ValueV, ErrorV>>,
    pos: int,
    act: ActivationV,
    fuel: nat,
)
    requires
        d.wf(),
        0 <= pos <= items.len(),
        items == Seq::new(d.nodes.len(), |i: int| Ok::<ValueV, ErrorV>(ValueV::Node(d.nodes[i]))),
        forall|j: int|
            0 <= j < items.len() ==> (#[trigger] spec_test(pp, items[j]->Ok_0, act, d, fuel))
                == Ok::<bool, ErrorV>(d.nodes[j].id == k),
    ensures
        spec_matching_elements(pp, items, pos, act, d, fuel) == (
        if exists|i: int| pos <= i < d.nodes.len() && d.nodes[i].id == k {
            seq![
                Ok::<ValueV, ErrorV>(
                    ValueV::Node(
                        d.nodes[choose|i: int| pos <= i < d.nodes.len() && d.nodes[i].id == k],
                    ),
                ),
            ]
        } else {
            Seq::<Result<ValueV, ErrorV>>::empty()
        }),
        (exists|i: int| pos <= i < d.nodes.len() && d.nodes[i].id == k) ==> d.find_node(k)
            == Some(d.nodes[choose|i: int| pos <= i < d.nodes.len() && d.nodes[i].id == k]),
    decreases items.len() - pos,
{
    if pos == items.len() {
    } else {
        lemma_matching_is_lookup(d, k, pp, items, pos + 1, act, fuel);
        let node = d.nodes[pos];
        if node.id == k {
            // uniqueness: no later node can also carry k
            assert forall|i: int| !(pos + 1 <= i < d.nodes.len() && d.nodes[i].id == k) by {
                if pos + 1 <= i < d.nodes.len() {
                    assert(d.nodes[pos].id != d.nodes[i].id);
                }
            }
            assert(spec_matching_elements(pp, items, pos + 1, act, d, fuel) =~= Seq::<
                Result<ValueV, ErrorV>,
            >::empty());
            assert(seq![Ok::<ValueV, ErrorV>(ValueV::Node(node))] + Seq::<
                Result<ValueV, ErrorV>,
            >::empty() =~= seq![Ok::<ValueV, ErrorV>(ValueV::Node(node))]);
            let w = choose|i: int| pos <= i < d.nodes.len() && d.nodes[i].id == k;
            assert(d.nodes[w].id == k);
            assert(w == pos) by {
                if w != pos {
                    assert(d.nodes[pos].id != d.nodes[w].id);
                }
            }
            assert(d.node_position(k) is Some);
            let pos_of_k = d.node_position(k)->Some_0;
            assert(d.nodes[pos_of_k].id == k);
            assert(pos_of_k == pos) by {
                if pos_of_k != pos {
                    assert(d.nodes[pos].id != d.nodes[pos_of_k].id);
                }
            }
        }
    }
}


/// A predicate with no empty junction anywhere: on this fragment the
/// planner's junction folding drops nothing, so planning is a rewrite that
/// preserves each subterm.
pub open spec fn junction_safe(p: PredicateV) -> bool
    decreases p,
{
    match p {
        PredicateV::Expr(_) => true,
        PredicateV::Field(_, sub) => junction_safe(*sub),
        PredicateV::Ends(sub) => junction_safe(*sub),
        PredicateV::Any(sub) => junction_safe(*sub),
        PredicateV::All(sub) => junction_safe(*sub),
        PredicateV::Regex(_) => true,
        PredicateV::And(subs) => subs.len() > 0 && junction_safe_all(subs),
        PredicateV::Or(subs) => subs.len() > 0 && junction_safe_all(subs),
        PredicateV::Not(sub) => junction_safe(*sub),
    }
}

/// Every subterm of a junction is junction-safe.
pub open spec fn junction_safe_all(s: Seq<PredicateV>) -> bool
    decreases s,
{
    if s.len() == 0 {
        true
    } else {
        junction_safe(s[0]) && junction_safe_all(s.drop_first())
    }
}

/// The meaning of a predicate, evaluated naively constructor by
/// constructor: what a filter by the unrewritten predicate would test.
pub open spec fn spec_test_naive(
    p: PredicateV,
    a: ClosureLayoutsV,
    v: ValueV,
    act: ActivationV,
    dump: DumpV,
    fuel: nat,
) -> Result<bool, ErrorV>
    decreases psize(p), 0int,
{
    match p {
        PredicateV::Expr(e) => match spec_plan_expr(*e, a) {
            Ok(ep) => match spec_run(ep, act, dump, fuel) {
                Ok(given) => Ok(spec_value_eq(v, given)),
                Err(er) => Err(er),
            },
            Err(_) => Err(ErrorV::Internal),
        },
        PredicateV::Field(name, sub) => {
            let field_r = match v {
                ValueV::Node(n) => spec_get_node_field(n, name),
                ValueV::Edge(e) => spec_get_edge_field(e, name),
                _ => Err(ErrorV::Type { expected: "node or edge"@, actual: spec_kind_name(v) }),
            };
            match field_r {
                Err(er) => Err(er),
                Ok(None) => Ok(false),
                Ok(Some(fv)) => spec_test_naive(*sub, a, fv, act, dump, fuel),
            }
        },
        PredicateV::Ends(sub) => match v {
            ValueV::Stream(s) => match spec_stream_last(s.items, s.pos) {
                Err(er) => Err(er),
                Ok(None) => Err(ErrorV::EmptyStream),
                Ok(Some(last)) => spec_test_naive(*sub, a, last, act, dump, fuel),
            },
            _ => Err(ErrorV::Type { expected: "stream"@, actual: spec_kind_name(v) }),
        },
        PredicateV::Any(sub) => match v {
            ValueV::Stream(s) => spec_quant_naive(*sub, a, false, s.items, s.pos, act, dump, fuel),
            _ => Err(ErrorV::Type { expected: "stream"@, actual: spec_kind_name(v) }),
        },
        PredicateV::All(sub) => match v {
            ValueV::Stream(s) => spec_quant_naive(*sub, a, true, s.items, s.pos, act, dump, fuel),
            _ => Err(ErrorV::Type { expected: "stream"@, actual: spec_kind_name(v) }),
        },
        PredicateV::Regex(pattern) => match v {
            ValueV::String(s) => if regex_compiles(pattern) {
                Ok(regex_matches(pattern, s))
            } else {
                Err(ErrorV::Internal)
            },
            _ => Err(ErrorV::Type { expected: "string"@, actual: spec_kind_name(v) }),
        },
        PredicateV::And(subs) => spec_list_naive(subs, a, true, v, act, dump, fuel),
        PredicateV::Or(subs) => spec_list_naive(subs, a, false, v, act, dump, fuel),
        PredicateV::Not(sub) => match spec_test_naive(*sub, a, v, act, dump, fuel) {
            Err(er) => Err(er),
            Ok(b) => Ok(!b),
        },
    }
}

/// The naive meaning of a junction, left to right, short-circuiting.
pub open spec fn spec_list_naive(
    subs: Seq<PredicateV>,
    a: ClosureLayoutsV,
    want_all: bool,
    v: ValueV,
    act: ActivationV,
    dump: DumpV,
    fuel: nat,
) -> Result<bool, ErrorV>
    decreases sum_psize(subs), 1int,
    via spec_list_naive_decreases
{
    if subs.len() == 0 {
        Ok(want_all)
    } else {
        match spec_test_naive(subs[0], a, v, act, dump, fuel) {
            Err(er) => Err(er),
            Ok(b) => if b != want_all {
                Ok(!want_all)
            } else {
                spec_list_naive(subs.drop_first(), a, want_all, v, act, dump, fuel)
            },
        }
    }
}

#[via_fn]
proof fn spec_list_naive_decreases(
    subs: Seq<PredicateV>,
    a: ClosureLayoutsV,
    want_all: bool,
    v: ValueV,
    act: ActivationV,
    dump: DumpV,
    fuel: nat,
) {
    if subs.len() > 0 {
        lemma_psize_pos(subs[0]);
        lemma_sum_psize_elem(subs, 0);
    }
}

/// The naive meaning of a quantifier over a stream's remaining elements.
pub open spec fn spec_quant_naive(
    sub: PredicateV,
    a: ClosureLayoutsV,
    want_all: bool,
    items: Seq<Result<ValueV, ErrorV>>,
    pos: int,
    act: ActivationV,
    dump: DumpV,
    fuel: nat,
) -> Result<bool, ErrorV>
    decreases psize(sub), 2 * (items.len() - pos) + 3,
{
    if pos < 0 || pos >= items.len() {
        Ok(want_all)
    } else {
        match items[pos] {
            Err(er) => Err(er),
            Ok(v) => match spec_test_naive(sub, a, v, act, dump, fuel) {
                Err(er) => Err(er),
                Ok(b) => if b != want_all {
                    Ok(!want_all)
                } else {
                    spec_quant_naive(sub, a, want_all, items, pos + 1, act, dump, fuel)
                },
            },
        }
    }
}

/// The plans of a junction's subterms, each of which must plan
/// non-trivially.
pub open spec fn spec_plan_each(subs: Seq<PredicateV>, a: ClosureLayoutsV) -> Option<
    Seq<PredicatePlanV>,
>
    decreases subs.len(),
{
    if subs.len() == 0 {
        Some(Seq::empty())
    } else {
        match spec_plan_predicate(subs[0], a) {
            Ok(PlanOrTrivialV::Plan(pp)) => match spec_plan_each(subs.drop_first(), a) {
                Some(rest) => Some(seq![pp] + rest),
                None => None,
            },
            _ => None,
        }
    }
}

/// On the junction-safe fragment the planner never folds a subterm away:
/// planning yields a plan whose test means exactly what the predicate means.
/// Junction folding, triviality elimination and primitive specialization are
/// semantics-preserving there.
pub proof fn lemma_plan_predicate_sound(
    p: PredicateV,
    a: ClosureLayoutsV,
    v: ValueV,
    act: ActivationV,
    dump: DumpV,
    fuel: nat,
)
    requires
        junction_safe(p),
        spec_plan_predicate(p, a) is Ok,
    ensures
        spec_plan_predicate(p, a)->Ok_0 is Plan,
        spec_test(spec_plan_predicate(p, a)->Ok_0->Plan_0, v, act, dump, fuel)
            == spec_test_naive(p, a, v, act, dump, fuel),
    decreases psize(p), 0int,
{
    match p {
        PredicateV::Expr(_) => {},
        PredicateV::Field(name, sub) => {
            lemma_plan_predicate_sound(*sub, a, v, act, dump, fuel);
            let sp = spec_plan_predicate(*sub, a)->Ok_0->Plan_0;
            let field_r = match v {
                ValueV::Node(n) => spec_get_node_field(n, name),
                ValueV::Edge(e) => spec_get_edge_field(e, name),
                _ => Err(ErrorV::Type { expected: "node or edge"@, actual: spec_kind_name(v) }),
            };
            match field_r {
                Ok(Some(fv)) => {
                    lemma_plan_predicate_sound(*sub, a, fv, act, dump, fuel);
                },
                _ => {},
            }
        },
        PredicateV::Ends(sub) => {
            lemma_plan_predicate_sound(*sub, a, v, act, dump, fuel);
            match v {
                ValueV::Stream(s) => match spec_stream_last(s.items, s.pos) {
                    Ok(Some(last)) => {
                        lemma_plan_predicate_sound(*sub, a, last, act, dump, fuel);
                    },
                    _ => {},
                },
                _ => {},
            }
        },
        PredicateV::Any(sub) => {
            lemma_plan_predicate_sound(*sub, a, v, act, dump, fuel);
            match v {
                ValueV::Stream(s) => {
                    lemma_quant_sound(*sub, a, false, s.items, s.pos, act, dump, fuel);
                },
                _ => {},
            }
        },
        PredicateV::All(sub) => {
            lemma_plan_predicate_sound(*sub, a, v, act, dump, fuel);
            match v {
                ValueV::Stream(s) => {
                    lemma_quant_sound(*sub, a, true, s.items, s.pos, act, dump, fuel);
                },
                _ => {},
            }
        },
        PredicateV::Regex(_) => {},
        PredicateV::And(subs) => {
            lemma_junction_sound(subs, a, true, v, act, dump, fuel);
        },
        PredicateV::Or(subs) => {
            lemma_junction_sound(subs, a, false, v, act, dump, fuel);
        },
        PredicateV::Not(sub) => {
            lemma_plan_predicate_sound(*sub, a, v, act, dump, fuel);
        },
    }
}

/// Quantifier soundness across a stream's elements.
proof fn lemma_quant_sound(
    sub: PredicateV,
    a: ClosureLayoutsV,
    want_all: bool,
    items: Seq<Result<ValueV, ErrorV>>,
    pos: int,
    act: ActivationV,
    dump: DumpV,
    fuel: nat,
)
    requires
        junction_safe(sub),
        spec_plan_predicate(sub, a) is Ok,
        spec_plan_predicate(sub, a)->Ok_0 is Plan,
    ensures
        crate::run::spec_quant_items(
            spec_plan_predicate(sub, a)->Ok_0->Plan_0,
            want_all,
            items,
            pos,
            act,
            dump,
            fuel,
        ) == spec_quant_naive(sub, a, want_all, items, pos, act, dump, fuel),
    decreases psize(sub), 2 * (items.len() - pos) + 3,
{
    if 0 <= pos < items.len() {
        match items[pos] {
            Err(_) => {},
            Ok(v) => {
                lemma_plan_predicate_sound(sub, a, v, act, dump, fuel);
                match spec_test_naive(sub, a, v, act, dump, fuel) {
                    Err(_) => {},
                    Ok(b) => {
                        if b == want_all {
                            lemma_quant_sound(sub, a, want_all, items, pos + 1, act, dump, fuel);
                        }
                    },
                }
            },
        }
    }
}

/// Junction soundness: with no empty junctions below, the fold keeps one
/// plan per subterm and the junction's test is the subterms' naive fold.
proof fn lemma_junction_sound(
    subs: Seq<PredicateV>,
    a: ClosureLayoutsV,
    consonant: bool,
    v: ValueV,
    act: ActivationV,
    dump: DumpV,
    fuel: nat,
)
    requires
        subs.len() > 0,
        junction_safe_all(subs),
        spec_plan_junction(subs, consonant, a, Seq::empty()) is Ok,
    ensures
        spec_plan_junction(subs, consonant, a, Seq::empty())->Ok_0 is Plan,
        spec_plan_each(subs, a) is Some,
        spec_plan_junction(subs, consonant, a, Seq::empty())->Ok_0->Plan_0 == (if consonant {
            PredicatePlanV::And(spec_plan_each(subs, a)->Some_0)
        } else {
            PredicatePlanV::Or(spec_plan_each(subs, a)->Some_0)
        }),
        spec_test_list(spec_plan_each(subs, a)->Some_0, consonant, v, act, dump, fuel)
            == spec_list_naive(subs, a, consonant, v, act, dump, fuel),
    decreases sum_psize(subs), 2int,
{
    lemma_junction_fold_shape(subs, a, consonant, Seq::empty());
    lemma_list_sound(subs, a, consonant, v, act, dump, fuel);
}

/// The junction fold's result is the constructor over one plan per subterm.
proof fn lemma_junction_fold_shape(
    subs: Seq<PredicateV>,
    a: ClosureLayoutsV,
    consonant: bool,
    acc: Seq<PredicatePlanV>,
)
    requires
        junction_safe_all(subs),
        spec_plan_junction(subs, consonant, a, acc) is Ok,
        subs.len() + acc.len() > 0,
    ensures
        spec_plan_each(subs, a) is Some,
        spec_plan_junction(subs, consonant, a, acc)->Ok_0 is Plan,
        spec_plan_junction(subs, consonant, a, acc)->Ok_0->Plan_0 == (if consonant {
            PredicatePlanV::And(acc + spec_plan_each(subs, a)->Some_0)
        } else {
            PredicatePlanV::Or(acc + spec_plan_each(subs, a)->Some_0)
        }),
    decreases sum_psize(subs), 1int,
{
    if subs.len() == 0 {
        assert(spec_plan_each(subs, a) == Some(Seq::<PredicatePlanV>::empty()));
        assert(acc + Seq::<PredicatePlanV>::empty() =~= acc);
    } else {
        assert(junction_safe(subs[0]));
        match spec_plan_predicate(subs[0], a) {
            Err(_) => {},
            Ok(pot) => {
                lemma_safe_plans_nontrivially(subs[0], a);
                match pot {
                    PlanOrTrivialV::Trivial(_) => {
                        assert(false);
                    },
                    PlanOrTrivialV::Plan(pp) => {
                        proof_sum_facts(subs);
                        lemma_junction_fold_shape(subs.drop_first(), a, consonant, acc.push(pp));
                        let rest = spec_plan_each(subs.drop_first(), a)->Some_0;
                        assert(acc.push(pp) + rest =~= acc + (seq![pp] + rest));
                    },
                }
            },
        }
    }
}

/// Size bookkeeping for a junction's tail.
proof fn proof_sum_facts(subs: Seq<PredicateV>)
    requires
        subs.len() > 0,
    ensures
        sum_psize(subs.drop_first()) < sum_psize(subs),
{
    lemma_psize_pos(subs[0]);
}

/// A junction-safe predicate never plans to a trivial answer.
proof fn lemma_safe_plans_nontrivially(p: PredicateV, a: ClosureLayoutsV)
    requires
        junction_safe(p),
        spec_plan_predicate(p, a) is Ok,
    ensures
        spec_plan_predicate(p, a)->Ok_0 is Plan,
    decreases psize(p), 0int,
{
    match p {
        PredicateV::Expr(_) => {},
        PredicateV::Field(_, sub) => {
            lemma_safe_plans_nontrivially(*sub, a);
        },
        PredicateV::Ends(sub) => {
            lemma_safe_plans_nontrivially(*sub, a);
        },
        PredicateV::Any(sub) => {
            lemma_safe_plans_nontrivially(*sub, a);
        },
        PredicateV::All(sub) => {
            lemma_safe_plans_nontrivially(*sub, a);
        },
        PredicateV::Regex(_) => {},
        PredicateV::And(subs) => {
            lemma_junction_never_trivial(subs, a, true, Seq::empty());
        },
        PredicateV::Or(subs) => {
            lemma_junction_never_trivial(subs, a, false, Seq::empty());
        },
        PredicateV::Not(sub) => {
            lemma_safe_plans_nontrivially(*sub, a);
        },
    }
}

/// A junction of junction-safe subterms, at least one of which exists or
/// with plans already accumulated, folds to a plan.
proof fn lemma_junction_never_trivial(
    subs: Seq<PredicateV>,
    a: ClosureLayoutsV,
    consonant: bool,
    acc: Seq<PredicatePlanV>,
)
    requires
        junction_safe_all(subs),
        subs.len() + acc.len() > 0,
        spec_plan_junction(subs, consonant, a, acc) is Ok,
    ensures
        spec_plan_junction(subs, consonant, a, acc)->Ok_0 is Plan,
    decreases sum_psize(subs), 1int,
{
    if subs.len() > 0 {
        assert(junction_safe(subs[0]));
        match spec_plan_predicate(subs[0], a) {
            Err(_) => {},
            Ok(pot) => {
                lemma_safe_plans_nontrivially(subs[0], a);
                match pot {
                    PlanOrTrivialV::Trivial(_) => {
                        assert(false);
                    },
                    PlanOrTrivialV::Plan(pp) => {
                        proof_sum_facts(subs);
                        lemma_junction_never_trivial(subs.drop_first(), a, consonant, acc.push(pp));
                    },
                }
            },
        }
    }
}

/// Testing the planned subterms, one each, means the naive fold.
proof fn lemma_list_sound(
    subs: Seq<PredicateV>,
    a: ClosureLayoutsV,
    want_all: bool,
    v: ValueV,
    act: ActivationV,
    dump: DumpV,
    fuel: nat,
)
    requires
        junction_safe_all(subs),
        spec_plan_each(subs, a) is Some,
    ensures
        spec_test_list(spec_plan_each(subs, a)->Some_0, want_all, v, act, dump, fuel)
            == spec_list_naive(subs, a, want_all, v, act, dump, fuel),
    decreases sum_psize(subs), 1int,
{
    if subs.len() == 0 {
        assert(spec_plan_each(subs, a)->Some_0 =~= Seq::<PredicatePlanV>::empty());
    } else {
        assert(junction_safe(subs[0]));
        match spec_plan_predicate(subs[0], a) {
            Ok(PlanOrTrivialV::Plan(pp)) => {
                lemma_plan_predicate_sound(subs[0], a, v, act, dump, fuel);
                let rest = spec_plan_each(subs.drop_first(), a)->Some_0;
                let whole = spec_plan_each(subs, a)->Some_0;
                assert(whole == seq![pp] + rest);
                assert(whole[0] == pp);
                assert(whole.drop_first() =~= rest);
                match spec_test_naive(subs[0], a, v, act, dump, fuel) {
                    Err(_) => {},
                    Ok(b) => {
                        if b == want_all {
                            proof_sum_facts(subs);
                            lemma_list_sound(subs.drop_first(), a, want_all, v, act, dump, fuel);
                        }
                    },
                }
            },
            _ => {},
        }
    }
}


/// The whole filter law on the junction-safe fragment: executing the plan
/// of `filter(s, P)` on a stream of values yields exactly the elements the
/// naive evaluation of `P` accepts, in the stream's order.
pub proof fn lemma_planned_filter_is_naive_filter(
    p: PredicateV,
    a: ClosureLayoutsV,
    items: Seq<Result<ValueV, ErrorV>>,
    act: ActivationV,
    dump: DumpV,
    fuel: nat,
)
    requires
        junction_safe(p),
        spec_plan_predicate(p, a) is Ok,
        forall|k: int| 0 <= k < items.len() ==> (#[trigger] items[k]) is Ok,
        forall|k: int|
            0 <= k < items.len() ==> (#[trigger] spec_test_naive(
                p,
                a,
                items[k]->Ok_0,
                act,
                dump,
                fuel,
            )) is Ok,
    ensures
        spec_plan_predicate(p, a)->Ok_0 is Plan,
        spec_filter_items(
            spec_plan_predicate(p, a)->Ok_0->Plan_0,
            items,
            0,
            act,
            dump,
            fuel,
            Seq::empty(),
        ) == spec_matching_elements(
            spec_plan_predicate(p, a)->Ok_0->Plan_0,
            items,
            0,
            act,
            dump,
            fuel,
        ),
        forall|k: int|
            0 <= k < items.len() ==> spec_test(
                spec_plan_predicate(p, a)->Ok_0->Plan_0,
                (#[trigger] items[k])->Ok_0,
                act,
                dump,
                fuel,
            ) == spec_test_naive(p, a, items[k]->Ok_0, act, dump, fuel),
{
    let pp = spec_plan_predicate(p, a)->Ok_0->Plan_0;
    assert forall|k: int| 0 <= k < items.len() implies spec_test(
        pp,
        (#[trigger] items[k])->Ok_0,
        act,
        dump,
        fuel,
    ) == spec_test_naive(p, a, items[k]->Ok_0, act, dump, fuel) by {
        lemma_plan_predicate_sound(p, a, items[k]->Ok_0, act, dump, fuel);
    }
    lemma_plan_predicate_sound(
        p,
        a,
        if items.len() > 0 {
            items[0]->Ok_0
        } else {
            ValueV::Number(0)
        },
        act,
        dump,
        fuel,
    );
    lemma_filter_yields_matching_elements(pp, items, 0, act, dump, fuel);
}


/// The layout's assignment is a bijection onto a lambda's formals and
/// captured variables: formal `i` reads `Actual(i)`, and when the captured
/// set holds no duplicates, its `k`-th address reads `Captured(k)`.
pub proof fn lemma_layout_assignment_bijective(layout: LayoutV, here: LambdaId)
    requires
        forall|i: int, j: int|
            0 <= i < layout.captured_addrs.len() && 0 <= j < layout.captured_addrs.len() && i != j
                ==> layout.captured_addrs[i] != layout.captured_addrs[j],
        forall|k: int|
            0 <= k < layout.captured_addrs.len() ==> (#[trigger] layout.captured_addrs[k]).lambda
                != here,
    ensures
        forall|i: usize|
            (i as int) < layout.arity ==> spec_layout_lookup(
                layout,
                here,
                VarAddr { lambda: here, index: i },
            ) == Some(VarLocation::Actual(i)),
        forall|k: int|
            0 <= k < layout.captured_addrs.len() ==> spec_layout_lookup(
                layout,
                here,
                #[trigger] layout.captured_addrs[k],
            ) == Some(VarLocation::Captured(k as usize)),
{
    assert forall|k: int| 0 <= k < layout.captured_addrs.len() implies spec_layout_lookup(
        layout,
        here,
        #[trigger] layout.captured_addrs[k],
    ) == Some(VarLocation::Captured(k as usize)) by {
        lemma_addr_position_unique(layout.captured_addrs, k);
    }
}

/// In a duplicate-free address list, each address's first position is its
/// own.
proof fn lemma_addr_position_unique(addrs: Seq<VarAddr>, k: int)
    requires
        0 <= k < addrs.len(),
        forall|i: int, j: int|
            0 <= i < addrs.len() && 0 <= j < addrs.len() && i != j ==> addrs[i] != addrs[j],
    ensures
        spec_addr_position(addrs, addrs[k]) == Some(k),
    decreases k,
{
    if k == 0 {
    } else {
        assert(addrs[0] != addrs[k]);
        assert(addrs.drop_first()[k - 1] == addrs[k]);
        assert forall|i: int, j: int|
            0 <= i < addrs.drop_first().len() && 0 <= j < addrs.drop_first().len() && i
                != j implies addrs.drop_first()[i] != addrs.drop_first()[j] by {
            assert(addrs.drop_first()[i] == addrs[i + 1]);
            assert(addrs.drop_first()[j] == addrs[j + 1]);
        }
        lemma_addr_position_unique(addrs.drop_first(), k - 1);
    }
}

} // verus!





