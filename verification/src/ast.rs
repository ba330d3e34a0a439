//! A query expression, syntactically well-formed: the abstract syntax the
//! grammar produces, with labeled lambda and variable-use sites.

use vstd::prelude::*;
use crate::id_vec::IdVecIndex;

verus! {

broadcast use
    vstd::std_specs::vec::group_vec_axioms,
    vstd::seq::group_seq_axioms;

/// A label on a lambda or predicate-operator expression. Labels are assigned
/// densely, in pre-order, so a parent's id is less than its descendants'.
#[derive(Clone, Copy, PartialEq, Eq, Structural, Debug)]
pub struct LambdaId(pub usize);

/// A label on a lexical variable use, assigned densely in pre-order.
#[derive(Clone, Copy, PartialEq, Eq, Structural, Debug)]
pub struct UseId(pub usize);

impl IdVecIndex for LambdaId {
    open spec fn as_index(self) -> int {
        self.0 as int
    }

    fn to_usize(self) -> usize {
        self.0
    }

    fn from_usize(size: usize) -> LambdaId {
        LambdaId(size)
    }
}

impl IdVecIndex for UseId {
    open spec fn as_index(self) -> int {
        self.0 as int
    }

    fn to_usize(self) -> usize {
        self.0
    }

    fn from_usize(size: usize) -> UseId {
        UseId(size)
    }
}

/// A variable reference: one of the reserved names that denote built-in
/// operators, or a lexical reference carrying a use id and the source name.
pub enum Var {
    Edges,
    First,
    MapOp,
    Nodes,
    Paths,
    Root,
    Lexical { id: UseId, name: String },
}

/// The operator of a predicate expression.
#[derive(Clone, Copy, PartialEq, Eq, Structural, Debug)]
pub enum PredicateOp {
    Find,
    Filter,
    Until,
}

/// A query expression.
pub enum Expr {
    Number(u64),
    String(String),
    StreamLiteral(Vec<Expr>),
    PredicateOp { id: LambdaId, stream: Box<Expr>, op: PredicateOp, predicate: Box<Predicate> },
    Var(Var),
    App { arg: Box<Expr>, fun: Box<Expr> },
    Lambda { id: LambdaId, formals: Vec<String>, body: Box<Expr> },
}

/// A predicate, the sub-language applied to stream elements.
pub enum Predicate {
    Expr(Expr),
    Field(String, Box<Predicate>),
    Ends(Box<Predicate>),
    Any(Box<Predicate>),
    All(Box<Predicate>),
    Regex(String),
    And(Vec<Predicate>),
    Or(Vec<Predicate>),
    Not(Box<Predicate>),
}

/// The mathematical content of a [`Var`].
pub enum VarV {
    Edges,
    First,
    MapOp,
    Nodes,
    Paths,
    Root,
    Lexical { id: UseId, name: Seq<char> },
}

/// The mathematical content of an [`Expr`].
#[verifier::ext_equal]
pub enum ExprV {
    Number(u64),
    String(Seq<char>),
    StreamLiteral(Seq<ExprV>),
    PredicateOp { id: LambdaId, stream: Box<ExprV>, op: PredicateOp, predicate: Box<PredicateV> },
    Var(VarV),
    App { arg: Box<ExprV>, fun: Box<ExprV> },
    Lambda { id: LambdaId, formals: Seq<Seq<char>>, body: Box<ExprV> },
}

/// The mathematical content of a [`Predicate`].
#[verifier::ext_equal]
pub enum PredicateV {
    Expr(Box<ExprV>),
    Field(Seq<char>, Box<PredicateV>),
    Ends(Box<PredicateV>),
    Any(Box<PredicateV>),
    All(Box<PredicateV>),
    Regex(Seq<char>),
    And(Seq<PredicateV>),
    Or(Seq<PredicateV>),
    Not(Box<PredicateV>),
}

impl View for Var {
    type V = VarV;

    open spec fn view(&self) -> VarV {
        match self {
            Var::Edges => VarV::Edges,
            Var::First => VarV::First,
            Var::MapOp => VarV::MapOp,
            Var::Nodes => VarV::Nodes,
            Var::Paths => VarV::Paths,
            Var::Root => VarV::Root,
            Var::Lexical { id, name } => VarV::Lexical { id: *id, name: name@ },
        }
    }
}

/// The views of a list of formal-parameter names.
pub open spec fn formals_view(formals: Seq<String>) -> Seq<Seq<char>> {
    Seq::new(formals.len(), |i: int| formals[i]@)
}

impl Expr {
    /// The mathematical content of the expression.
    pub open spec fn deep_view(&self) -> ExprV
        decreases self,
    {
        match self {
            Expr::Number(n) => ExprV::Number(*n),
            Expr::String(s) => ExprV::String(s@),
            Expr::StreamLiteral(elts) => ExprV::StreamLiteral(deep_view_exprs(elts@)),
            Expr::PredicateOp { id, stream, op, predicate } => ExprV::PredicateOp {
                id: *id,
                stream: Box::new(stream.deep_view()),
                op: *op,
                predicate: Box::new(predicate.deep_view()),
            },
            Expr::Var(v) => ExprV::Var(v@),
            Expr::App { arg, fun } => ExprV::App {
                arg: Box::new(arg.deep_view()),
                fun: Box::new(fun.deep_view()),
            },
            Expr::Lambda { id, formals, body } => ExprV::Lambda {
                id: *id,
                formals: formals_view(formals@),
                body: Box::new(body.deep_view()),
            },
        }
    }
}

/// The views of a list of expressions.
pub open spec fn deep_view_exprs(s: Seq<Expr>) -> Seq<ExprV>
    decreases s,
{
    Seq::new(
        s.len(),
        |i: int|
            if 0 <= i < s.len() {
                s[i].deep_view()
            } else {
                ExprV::Number(0)
            },
    )
}

impl Predicate {
    /// The mathematical content of the predicate.
    pub open spec fn deep_view(&self) -> PredicateV
        decreases self,
    {
        match self {
            Predicate::Expr(e) => PredicateV::Expr(Box::new(e.deep_view())),
            Predicate::Field(name, sub) => PredicateV::Field(name@, Box::new(sub.deep_view())),
            Predicate::Ends(sub) => PredicateV::Ends(Box::new(sub.deep_view())),
            Predicate::Any(sub) => PredicateV::Any(Box::new(sub.deep_view())),
            Predicate::All(sub) => PredicateV::All(Box::new(sub.deep_view())),
            Predicate::Regex(pattern) => PredicateV::Regex(pattern@),
            Predicate::And(subs) => PredicateV::And(deep_view_predicates(subs@)),
            Predicate::Or(subs) => PredicateV::Or(deep_view_predicates(subs@)),
            Predicate::Not(sub) => PredicateV::Not(Box::new(sub.deep_view())),
        }
    }
}

/// The views of a list of predicates.
pub open spec fn deep_view_predicates(s: Seq<Predicate>) -> Seq<PredicateV>
    decreases s,
{
    Seq::new(
        s.len(),
        |i: int|
            if 0 <= i < s.len() {
                s[i].deep_view()
            } else {
                PredicateV::Regex(Seq::empty())
            },
    )
}

/// The string a quoted literal's text denotes: each backslash escapes the
/// character after it.
pub open spec fn spec_denoted(text: Seq<char>) -> Seq<char>
    decreases text.len(),
{
    if text.len() == 0 {
        Seq::empty()
    } else if text[0] == '\\' && text.len() >= 2 {
        seq![text[1]] + spec_denoted(text.skip(2))
    } else {
        seq![text[0]] + spec_denoted(text.skip(1))
    }
}

/// Every backslash in the text escapes a character after it; in particular
/// the text does not end with a lone backslash. The grammar guarantees this
/// of every literal it produces.
pub open spec fn spec_well_escaped(text: Seq<char>) -> bool
    decreases text.len(),
{
    if text.len() == 0 {
        true
    } else if text[0] == '\\' {
        text.len() >= 2 && spec_well_escaped(text.skip(2))
    } else {
        spec_well_escaped(text.skip(1))
    }
}

/// Given the text of a string literal, the `String` it denotes.
pub fn denoted_string(literal: &str) -> (r: String)
    requires
        spec_well_escaped(literal@),
    ensures
        r@ == spec_denoted(literal@),
{
    let n = literal.unicode_len();
    let mut out = String::new();
    let mut i: usize = 0;
    proof {
        assert(literal@.skip(0) =~= literal@);
        assert(out@ + spec_denoted(literal@) =~= spec_denoted(literal@));
    }
    while i < n
        invariant
            i <= n,
            n == literal@.len(),
            spec_well_escaped(literal@.skip(i as int)),
            spec_denoted(literal@) == out@ + spec_denoted(literal@.skip(i as int)),
        decreases n - i,
    {
        let ghost rest = literal@.skip(i as int);
        let ghost out0 = out@;
        let c = literal.get_char(i);
        proof {
            assert(rest[0] == literal@[i as int]);
        }
        if c == '\\' {
            proof {
                assert(rest.len() >= 2);
                assert(i + 1 < n);
            }
            let c2 = literal.get_char(i + 1);
            crate::shim::push_char(&mut out, c2);
            proof {
                assert(rest[1] == literal@[i as int + 1]);
                assert(rest.skip(2) =~= literal@.skip(i as int + 2));
                assert(out@ =~= out0 + seq![c2]);
                assert((out0 + seq![c2]) + spec_denoted(rest.skip(2)) =~= out0 + (seq![c2]
                    + spec_denoted(rest.skip(2))));
            }
            i = i + 2;
        } else {
            crate::shim::push_char(&mut out, c);
            proof {
                assert(rest.skip(1) =~= literal@.skip(i as int + 1));
                assert(out@ =~= out0 + seq![c]);
                assert((out0 + seq![c]) + spec_denoted(rest.skip(1)) =~= out0 + (seq![c]
                    + spec_denoted(rest.skip(1))));
            }
            i = i + 1;
        }
    }
    proof {
        assert(literal@.skip(n as int) =~= Seq::<char>::empty());
        assert(out@ + Seq::<char>::empty() =~= out@);
    }
    out
}

/// Given the text of a regex literal, the pattern `String` it denotes; the
/// same escape rule as [`denoted_string`].
pub fn denoted_regex(literal: &str) -> (r: String)
    requires
        spec_well_escaped(literal@),
    ensures
        r@ == spec_denoted(literal@),
{
    denoted_string(literal)
}


/// The number of syntax nodes in an expression, the measure planning
/// recursion descends on.
pub open spec fn esize(e: ExprV) -> nat
    decreases e,
{
    match e {
        ExprV::Number(_) => 1,
        ExprV::String(_) => 1,
        ExprV::Var(_) => 1,
        ExprV::StreamLiteral(elts) => 1 + sum_esize(elts),
        ExprV::PredicateOp { id, stream, op, predicate } => 1 + esize(*stream) + psize(*predicate),
        ExprV::App { arg, fun } => 1 + esize(*arg) + esize(*fun),
        ExprV::Lambda { id, formals, body } => 1 + esize(*body),
    }
}

/// The number of syntax nodes in a list of expressions.
pub open spec fn sum_esize(s: Seq<ExprV>) -> nat
    decreases s,
{
    if s.len() == 0 {
        0
    } else {
        esize(s[0]) + sum_esize(s.drop_first())
    }
}

/// The number of syntax nodes in a predicate.
pub open spec fn psize(p: PredicateV) -> nat
    decreases p,
{
    match p {
        PredicateV::Expr(e) => 1 + esize(*e),
        PredicateV::Field(_, sub) => 1 + psize(*sub),
        PredicateV::Ends(sub) => 1 + psize(*sub),
        PredicateV::Any(sub) => 1 + psize(*sub),
        PredicateV::All(sub) => 1 + psize(*sub),
        PredicateV::Regex(_) => 1,
        PredicateV::And(subs) => 1 + sum_psize(subs),
        PredicateV::Or(subs) => 1 + sum_psize(subs),
        PredicateV::Not(sub) => 1 + psize(*sub),
    }
}

/// The number of syntax nodes in a list of predicates.
pub open spec fn sum_psize(s: Seq<PredicateV>) -> nat
    decreases s,
{
    if s.len() == 0 {
        0
    } else {
        psize(s[0]) + sum_psize(s.drop_first())
    }
}

/// Sizes are at least one, and a list's sum bounds each element.
pub proof fn lemma_psize_pos(p: PredicateV)
    ensures
        psize(p) >= 1,
{
}

/// An expression's size is at least one.
pub proof fn lemma_esize_pos(e: ExprV)
    ensures
        esize(e) >= 1,
{
}

/// Splitting a predicate list splits its size.
pub proof fn lemma_sum_psize_split(s: Seq<PredicateV>, k: int)
    requires
        0 <= k <= s.len(),
    ensures
        sum_psize(s) == sum_psize(s.take(k)) + sum_psize(s.skip(k)),
    decreases k,
{
    if k == 0 {
        assert(s.take(0) =~= Seq::<PredicateV>::empty());
        assert(s.skip(0) =~= s);
    } else {
        assert(s.take(k)[0] == s[0]);
        assert(s.take(k).drop_first() =~= s.drop_first().take(k - 1));
        assert(s.skip(k) =~= s.drop_first().skip(k - 1));
        lemma_sum_psize_split(s.drop_first(), k - 1);
    }
}

/// A concatenation's size is the sum of its parts'.
pub proof fn lemma_sum_psize_add(a: Seq<PredicateV>, b: Seq<PredicateV>)
    ensures
        sum_psize(a + b) == sum_psize(a) + sum_psize(b),
    decreases a.len(),
{
    if a.len() == 0 {
        assert(a + b =~= b);
    } else {
        assert((a + b)[0] == a[0]);
        assert((a + b).drop_first() =~= a.drop_first() + b);
        lemma_sum_psize_add(a.drop_first(), b);
    }
}

/// Each expression element is bounded by the list's size.
pub proof fn lemma_sum_esize_elem(s: Seq<ExprV>, k: int)
    requires
        0 <= k < s.len(),
    ensures
        esize(s[k]) <= sum_esize(s),
    decreases k,
{
    if k == 0 {
    } else {
        assert(s.drop_first()[k - 1] == s[k]);
        lemma_sum_esize_elem(s.drop_first(), k - 1);
    }
}

/// Each element is bounded by the list's size.
pub proof fn lemma_sum_psize_elem(s: Seq<PredicateV>, k: int)
    requires
        0 <= k < s.len(),
    ensures
        psize(s[k]) <= sum_psize(s),
    decreases k,
{
    if k == 0 {
    } else {
        assert(s.drop_first()[k - 1] == s[k]);
        lemma_sum_psize_elem(s.drop_first(), k - 1);
    }
}

} // verus!

