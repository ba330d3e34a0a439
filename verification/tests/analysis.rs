//! The closure-analysis pipeline on hand-built expressions: label
//! assignment, capture mapping, and layout.

use fxsnapshot::ast::{Expr, LambdaId, UseId, Var};
use fxsnapshot::fun::{CaptureMap, CaptureMapBuilder, ExprLabeler, StaticAnalysis, VarAddr};

fn var(id: usize, name: &str) -> Box<Expr> {
    Box::new(Expr::Var(Var::Lexical { id: UseId(id), name: name.to_owned() }))
}

fn app(arg: Box<Expr>, fun: Box<Expr>) -> Box<Expr> {
    Box::new(Expr::App { arg, fun })
}

fn lambda(id: usize, formals: &[&str], body: Box<Expr>) -> Box<Expr> {
    Box::new(Expr::Lambda {
        id: LambdaId(id),
        formals: formals.iter().map(|f| (*f).to_owned()).collect(),
        body,
    })
}

fn root() -> Box<Expr> {
    Box::new(Expr::Var(Var::Root))
}

fn varaddr(lambda: usize, index: usize) -> VarAddr {
    VarAddr { lambda: LambdaId(lambda), index }
}

fn make_capture_map(expr: &Expr) -> CaptureMap {
    let mut builder = CaptureMapBuilder::new();
    builder.walk_expr(expr).expect("build capture map");
    builder.build().expect("scopes and captures must be empty at the end")
}

fn lambda_entry(cm: &CaptureMap, k: usize) -> (usize, Option<LambdaId>, Vec<VarAddr>) {
    let info = &cm.lambdas.0[k];
    (info.arity, info.parent, info.captured.clone())
}

#[test]
fn fun_trivial() {
    let expr = root();
    let cm = make_capture_map(&expr);
    assert!(cm.lambdas.0.is_empty());
    assert!(cm.uses.0.is_empty());
}

#[test]
fn fun_single_lambda() {
    let expr = lambda(0, &["x", "y", "z"], app(var(0, "y"), var(1, "z")));
    let cm = make_capture_map(&expr);
    assert_eq!(cm.lambdas.0.len(), 1);
    assert_eq!(lambda_entry(&cm, 0), (3, None, vec![]));
    assert_eq!(cm.uses.0.len(), 2);
    assert_eq!(cm.uses.0[0].lambda, Some(LambdaId(0)));
    assert_eq!(cm.uses.0[0].referent, varaddr(0, 1));
    assert_eq!(cm.uses.0[1].lambda, Some(LambdaId(0)));
    assert_eq!(cm.uses.0[1].referent, varaddr(0, 2));
}

#[test]
fn fun_two_lambdas() {
    let expr = lambda(
        0,
        &["x", "y"],
        lambda(1, &["z", "w"], app(var(0, "y"), var(1, "z"))),
    );
    let cm = make_capture_map(&expr);
    assert_eq!(cm.lambdas.0.len(), 2);
    assert_eq!(lambda_entry(&cm, 0), (2, None, vec![]));
    assert_eq!(lambda_entry(&cm, 1), (2, Some(LambdaId(0)), vec![varaddr(0, 1)]));
    assert_eq!(cm.uses.0.len(), 2);
    assert_eq!(cm.uses.0[0].lambda, Some(LambdaId(1)));
    assert_eq!(cm.uses.0[0].referent, varaddr(0, 1));
    assert_eq!(cm.uses.0[1].lambda, Some(LambdaId(1)));
    assert_eq!(cm.uses.0[1].referent, varaddr(1, 0));
}

#[test]
fn fun_three_lambdas() {
    // |a,b| |c,d| b d (|a,d| (a b c d))
    let expr = lambda(
        0,
        &["a", "b"],
        lambda(
            1,
            &["c", "d"],
            app(
                app(var(0, "b"), var(1, "d")),
                lambda(
                    2,
                    &["a", "d"],
                    app(app(app(var(2, "a"), var(3, "b")), var(4, "c")), var(5, "d")),
                ),
            ),
        ),
    );
    let cm = make_capture_map(&expr);
    assert_eq!(cm.lambdas.0.len(), 3);
    assert_eq!(lambda_entry(&cm, 0), (2, None, vec![]));
    assert_eq!(lambda_entry(&cm, 1), (2, Some(LambdaId(0)), vec![varaddr(0, 1)]));
    assert_eq!(
        lambda_entry(&cm, 2),
        (2, Some(LambdaId(1)), vec![varaddr(0, 1), varaddr(1, 0)])
    );
    assert_eq!(cm.uses.0.len(), 6);
    let expected = [
        (Some(LambdaId(1)), varaddr(0, 1)),
        (Some(LambdaId(1)), varaddr(1, 1)),
        (Some(LambdaId(2)), varaddr(2, 0)),
        (Some(LambdaId(2)), varaddr(0, 1)),
        (Some(LambdaId(2)), varaddr(1, 0)),
        (Some(LambdaId(2)), varaddr(2, 1)),
    ];
    for (k, (l, r)) in expected.iter().enumerate() {
        assert_eq!(cm.uses.0[k].lambda, *l);
        assert_eq!(cm.uses.0[k].referent, *r);
    }
}

#[test]
fn labeler_assigns_dense_preorder_ids() {
    // ids in the built tree are placeholders; labeling assigns fresh ones
    let expr = lambda(
        7,
        &["x"],
        app(var(9, "x"), lambda(3, &["y"], var(8, "y"))),
    );
    let mut labeler = ExprLabeler::new();
    let labeled = labeler.walk_expr(&expr).expect("label");
    assert_eq!(labeler.lambda_count(), 2);
    assert_eq!(labeler.use_count(), 2);
    match labeled {
        Expr::Lambda { id, body, .. } => {
            assert_eq!(id, LambdaId(0));
            match *body {
                Expr::App { arg, fun } => {
                    match *arg {
                        Expr::Var(Var::Lexical { id, ref name }) => {
                            assert_eq!(id, UseId(0));
                            assert_eq!(name, "x");
                        }
                        _ => panic!("expected a lexical use"),
                    }
                    match *fun {
                        Expr::Lambda { id, .. } => assert_eq!(id, LambdaId(1)),
                        _ => panic!("expected the inner lambda"),
                    }
                }
                _ => panic!("expected an application body"),
            }
        }
        _ => panic!("expected a lambda"),
    }
}

#[test]
fn analysis_lays_out_captures() {
    // |x| |z| x: the inner lambda captures x from the outer activation
    let expr = lambda(0, &["x"], lambda(1, &["z"], var(0, "x")));
    let (_labeled, analysis) = StaticAnalysis::from_expr(&expr).expect("analysis");
    let outer = analysis.get_capture_list(LambdaId(0));
    assert!(outer.0.is_empty());
    let inner = analysis.get_capture_list(LambdaId(1));
    assert_eq!(inner.0.len(), 1);
}

#[test]
fn unbound_variable_is_reported() {
    let expr = var(0, "foo");
    let mut builder = CaptureMapBuilder::new();
    match builder.walk_expr(&expr) {
        Err(fxsnapshot::query::StaticError::UnboundVar { name }) => assert_eq!(name, "foo"),
        _ => panic!("expected an unbound-variable error"),
    }
}

#[test]
fn denoted_string_unescapes() {
    assert_eq!(fxsnapshot::ast::denoted_string("abc"), "abc");
    assert_eq!(fxsnapshot::ast::denoted_string("a\\\"b"), "a\"b");
    assert_eq!(fxsnapshot::ast::denoted_string("a\\\\c"), "a\\c");
    assert_eq!(fxsnapshot::ast::denoted_regex("foo\\.js"), "foo.js");
}
