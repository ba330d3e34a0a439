//! The query pipeline's shared pieces: the execution context handed to
//! every plan, and the errors static analysis can raise.

use vstd::prelude::*;
use crate::ast::{Expr, ExprV};
use crate::dump::{CoreDump, DumpV};
use crate::fun::{spec_static_analysis, StaticAnalysis};
use crate::run::{spec_plan_expr, Plan, PlanV};

verus! {

broadcast use
    vstd::std_specs::vec::group_vec_axioms,
    vstd::seq::group_seq_axioms;

/// An execution context: general parameters for the entire query, here the
/// snapshot that operators like `nodes` and `root` consult.
pub struct Context<'a> {
    /// The heap snapshot being queried.
    pub dump: &'a CoreDump,
}

impl<'a> Context<'a> {
    /// A context over the given snapshot.
    pub fn from_dump(dump: &'a CoreDump) -> (r: Context<'a>)
        ensures
            r.dump == dump,
    {
        Context { dump }
    }

    /// The snapshot's mathematical content.
    pub open spec fn view(self) -> DumpV {
        self.dump@
    }
}

/// An error raised during query planning.
#[derive(Debug)]
pub enum StaticError {
    /// The query text does not conform to the grammar.
    Parse(String),
    /// The query references a variable no enclosing lambda binds.
    UnboundVar { name: String },
    /// The expression handed to analysis or planning was not labeled the way
    /// the label pass labels it; trees that went through the pipeline in
    /// order never raise this.
    Internal,
}

/// The mathematical content of a [`StaticError`].
#[verifier::ext_equal]
pub enum StaticErrorV {
    Parse(Seq<char>),
    UnboundVar { name: Seq<char> },
    Internal,
}

impl View for StaticError {
    type V = StaticErrorV;

    open spec fn view(&self) -> StaticErrorV {
        match self {
            StaticError::Parse(s) => StaticErrorV::Parse(s@),
            StaticError::UnboundVar { name } => StaticErrorV::UnboundVar { name: name@ },
            StaticError::Internal => StaticErrorV::Internal,
        }
    }
}


/// The whole static pipeline on an expression, ending in its plan: label,
/// analyze, and rewrite.
pub open spec fn spec_compile(e: ExprV) -> Result<PlanV, StaticErrorV> {
    match spec_static_analysis(e) {
        Err(er) => Err(er),
        Ok((labeled, layouts)) => spec_plan_expr(labeled, layouts),
    }
}

/// Compile an expression: analyze it statically and rewrite it into the
/// plan that evaluates it. Mirrors [`spec_compile`].
pub fn compile(expr: &Expr) -> (r: Result<Plan, StaticError>)
    ensures
        match r {
            Ok(p) => spec_compile(expr.deep_view()) == Ok::<PlanV, StaticErrorV>(p.deep_view()),
            Err(e) => spec_compile(expr.deep_view()) == Err::<PlanV, StaticErrorV>(e@),
        },
{
    let (labeled, analysis) = match StaticAnalysis::from_expr(expr) {
        Ok(la) => la,
        Err(e) => {
            return Err(e);
        },
    };
    crate::run::plan_expr(&labeled, &analysis)
}

} // verus!

