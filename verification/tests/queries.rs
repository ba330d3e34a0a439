//! End-to-end queries over a small snapshot fixture: three nodes, root
//! 0x10 with edges "a" to 0x20 and "b" to 0x30, 0x20 with size 2 and edge
//! "c" to 0x30, and 0x30 with type name "Array".

use fxsnapshot::ast::{Expr, LambdaId, Predicate, PredicateOp, UseId, Var};
use fxsnapshot::dump::CoreDump;
use fxsnapshot::fun::{Activation, ActivationBase};
use fxsnapshot::query::{compile, Context, StaticError};
use fxsnapshot::print::{one_byte_quoted, two_byte_quoted};
use fxsnapshot::run::{test_pred, Plan, PredicatePlan};
use fxsnapshot::stream::Stream;
use fxsnapshot::value::{Error, Value};

fn varint(mut n: u64, out: &mut Vec<u8>) {
    loop {
        let b = (n & 0x7f) as u8;
        n >>= 7;
        if n == 0 {
            out.push(b);
            break;
        } else {
            out.push(b | 0x80);
        }
    }
}

fn varint_field(field: u64, v: u64, out: &mut Vec<u8>) {
    varint(field << 3, out);
    varint(v, out);
}

fn bytes_field(field: u64, data: &[u8], out: &mut Vec<u8>) {
    varint((field << 3) | 2, out);
    varint(data.len() as u64, out);
    out.extend_from_slice(data);
}

fn message(body: &[u8], out: &mut Vec<u8>) {
    varint(body.len() as u64, out);
    out.extend_from_slice(body);
}

fn utf16(s: &str) -> Vec<u8> {
    let mut out = Vec::new();
    for unit in s.encode_utf16() {
        out.push((unit & 0xff) as u8);
        out.push((unit >> 8) as u8);
    }
    out
}

fn edge_msg(referent: u64, name: &str) -> Vec<u8> {
    let mut body = Vec::new();
    varint_field(1, referent, &mut body);
    bytes_field(2, &utf16(name), &mut body);
    body
}

/// The fixture snapshot's bytes.
fn fixture_bytes() -> Vec<u8> {
    let mut out = Vec::new();
    // metadata: a timestamp
    let mut metadata = Vec::new();
    varint_field(1, 1234, &mut metadata);
    message(&metadata, &mut out);
    // root node 0x10 with edges "a" -> 0x20 and "b" -> 0x30
    let mut root = Vec::new();
    varint_field(1, 0x10, &mut root);
    bytes_field(3, &edge_msg(0x20, "a"), &mut root);
    bytes_field(3, &edge_msg(0x30, "b"), &mut root);
    message(&root, &mut out);
    // node 0x20 with size 2 and edge "c" -> 0x30
    let mut n20 = Vec::new();
    varint_field(1, 0x20, &mut n20);
    varint_field(2, 2, &mut n20);
    bytes_field(3, &edge_msg(0x30, "c"), &mut n20);
    message(&n20, &mut out);
    // node 0x30 with type name "Array"
    let mut n30 = Vec::new();
    varint_field(1, 0x30, &mut n30);
    bytes_field(6, &utf16("Array"), &mut n30);
    message(&n30, &mut out);
    out
}

fn fixture() -> CoreDump {
    let bytes = fixture_bytes();
    CoreDump::from_bytes("fixture", &bytes).expect("the fixture must decode")
}

fn run_query(dump: &CoreDump, expr: &Expr) -> Result<Value, Error> {
    let cx = Context::from_dump(dump);
    let plan = compile(expr).expect("the query must compile");
    let base = ActivationBase::from_context(&cx);
    let act = Activation::for_eval(&base);
    plan.run(&act, &cx, 64)
}

fn nodes() -> Box<Expr> {
    Box::new(Expr::Var(Var::Nodes))
}

fn number(n: u64) -> Box<Expr> {
    Box::new(Expr::Number(n))
}

fn field(name: &str, p: Box<Predicate>) -> Box<Predicate> {
    Box::new(Predicate::Field(name.to_owned(), p))
}

fn expr_pred(e: Box<Expr>) -> Box<Predicate> {
    Box::new(Predicate::Expr(*e))
}

fn and(ps: Vec<Predicate>) -> Box<Predicate> {
    Box::new(Predicate::And(ps))
}

fn filter(stream: Box<Expr>, predicate: Box<Predicate>) -> Box<Expr> {
    Box::new(Expr::PredicateOp { id: LambdaId(0), stream, op: PredicateOp::Filter, predicate })
}

fn app(arg: Box<Expr>, fun: Box<Expr>) -> Box<Expr> {
    Box::new(Expr::App { arg, fun })
}

fn node_id(v: &Value) -> u64 {
    match v {
        Value::Node(n) => n.id.0,
        _ => panic!("expected a node value"),
    }
}

fn drain(v: Value) -> Vec<Value> {
    match v {
        Value::Stream(mut s) => {
            let mut out = Vec::new();
            loop {
                match s.next() {
                    Ok(Some(x)) => out.push(x),
                    Ok(None) => break,
                    Err(e) => panic!("stream failed: {:?}", e),
                }
            }
            out
        }
        _ => panic!("expected a stream value"),
    }
}

#[test]
fn decode_fixture() {
    let dump = fixture();
    assert_eq!(dump.timestamp, Some(1234));
    assert_eq!(dump.root_id().0, 0x10);
    assert!(dump.has_node(fxsnapshot::dump::NodeId(0x20)));
    assert!(dump.has_node(fxsnapshot::dump::NodeId(0x30)));
    assert!(!dump.has_node(fxsnapshot::dump::NodeId(0x99)));
    let root = dump.get_root();
    assert_eq!(root.edges.len(), 2);
    assert_eq!(root.edges[0].referent, Some(fxsnapshot::dump::NodeId(0x20)));
    assert_eq!(root.edges[1].referent, Some(fxsnapshot::dump::NodeId(0x30)));
    let n30 = dump.get_node(fxsnapshot::dump::NodeId(0x30)).expect("0x30 present");
    let tn = n30.typeName.as_ref().expect("type name present");
    assert_eq!(tn.0, utf16("Array").chunks(2).map(|c| c[0] as u16 | ((c[1] as u16) << 8)).collect::<Vec<u16>>());
}

#[test]
fn decoding_is_position_stable() {
    // reading the same snapshot twice resolves everything identically
    let bytes = fixture_bytes();
    let d1 = CoreDump::from_bytes("fixture", &bytes).expect("decode");
    let d2 = CoreDump::from_bytes("fixture", &bytes).expect("decode");
    assert_eq!(d1.timestamp, d2.timestamp);
    assert_eq!(d1.root_id(), d2.root_id());
    let n1 = d1.get_root();
    let n2 = d2.get_root();
    assert_eq!(n1.edges.len(), n2.edges.len());
    for (e1, e2) in n1.edges.iter().zip(n2.edges.iter()) {
        assert_eq!(e1.referent, e2.referent);
        assert_eq!(e1.name.as_ref().map(|s| s.0.clone()), e2.name.as_ref().map(|s| s.0.clone()));
    }
}

#[test]
fn truncated_snapshot_is_rejected() {
    let bytes = fixture_bytes();
    let cut = &bytes[..bytes.len() - 1];
    assert!(CoreDump::from_bytes("fixture", cut).is_err());
    assert!(CoreDump::from_bytes("fixture", &[]).is_err());
}

#[test]
fn query_root() {
    let dump = fixture();
    let v = run_query(&dump, &Expr::Var(Var::Root)).expect("root evaluates");
    assert_eq!(node_id(&v), 0x10);
    let text = v.top_write().expect("root prints");
    assert_eq!(text, "Node { id: 0x10, coarseType: Other }");
}

#[test]
fn query_edges_root() {
    let dump = fixture();
    let v = run_query(&dump, &app(Box::new(Expr::Var(Var::Root)), Box::new(Expr::Var(Var::Edges))))
        .expect("edges root evaluates");
    let items = drain(v);
    assert_eq!(items.len(), 2);
    match &items[0] {
        Value::Edge(e) => {
            assert_eq!(e.referent, Some(fxsnapshot::dump::NodeId(0x20)));
            assert_eq!(e.name.as_ref().expect("named").0, vec![0x61u16]);
        }
        _ => panic!("expected an edge"),
    }
    match &items[1] {
        Value::Edge(e) => {
            assert_eq!(e.referent, Some(fxsnapshot::dump::NodeId(0x30)));
            assert_eq!(e.name.as_ref().expect("named").0, vec![0x62u16]);
        }
        _ => panic!("expected an edge"),
    }
}

#[test]
fn query_nodes_by_id_uses_the_index() {
    let dump = fixture();
    let expr = filter(nodes(), and(vec![*field("id", expr_pred(number(0x30)))]));
    let plan = compile(&expr).expect("compiles");
    // the id-hoist rewrite must replace the linear scan with a lookup
    match &plan {
        Plan::NodesById(_) => {}
        _ => panic!("expected the id-hoist rewrite to fire"),
    }
    let v = run_query(&dump, &expr).expect("evaluates");
    let items = drain(v);
    assert_eq!(items.len(), 1);
    assert_eq!(node_id(&items[0]), 0x30);
}

#[test]
fn query_nodes_by_missing_id_is_empty() {
    let dump = fixture();
    let expr = filter(nodes(), and(vec![*field("id", expr_pred(number(0x99)))]));
    let v = run_query(&dump, &expr).expect("evaluates");
    assert!(drain(v).is_empty());
}

#[test]
fn query_id_and_size_mismatch_is_empty() {
    let dump = fixture();
    let expr = filter(
        nodes(),
        and(vec![
            *field("id", expr_pred(number(0x20))),
            *field("size", expr_pred(number(1))),
        ]),
    );
    let v = run_query(&dump, &expr).expect("evaluates");
    assert!(drain(v).is_empty());
}

#[test]
fn query_identity_lambda() {
    let dump = fixture();
    // (|x| x) root
    let expr = app(
        Box::new(Expr::Var(Var::Root)),
        Box::new(Expr::Lambda {
            id: LambdaId(0),
            formals: vec!["x".to_owned()],
            body: Box::new(Expr::Var(Var::Lexical { id: UseId(0), name: "x".to_owned() })),
        }),
    );
    let v = run_query(&dump, &expr).expect("evaluates");
    assert_eq!(node_id(&v), 0x10);
}

#[test]
fn query_unbound_variable() {
    let expr = Expr::Var(Var::Lexical { id: UseId(0), name: "foo".to_owned() });
    match compile(&expr) {
        Err(StaticError::UnboundVar { name }) => assert_eq!(name, "foo"),
        _ => panic!("expected the unbound-variable error"),
    }
}

#[test]
fn query_first_of_empty_literal() {
    let dump = fixture();
    let expr = app(
        Box::new(Expr::StreamLiteral(Vec::new())),
        Box::new(Expr::Var(Var::First)),
    );
    match run_query(&dump, &expr) {
        Err(Error::EmptyStream) => {}
        _ => panic!("expected the empty-stream error"),
    }
}

#[test]
fn query_missing_field_is_an_error() {
    let dump = fixture();
    let expr = filter(nodes(), and(vec![*field("name", expr_pred(number(1)))]));
    let v = run_query(&dump, &expr).expect("the filter itself evaluates");
    match v {
        Value::Stream(mut s) => match s.next() {
            Err(Error::NoSuchField { value_kind, field }) => {
                assert_eq!(value_kind, "nodes");
                assert_eq!(field, "name");
            }
            _ => panic!("expected the no-such-field error"),
        },
        _ => panic!("expected a stream"),
    }
}

#[test]
fn query_filter_of_one_node_is_a_type_error() {
    let dump = fixture();
    // a filter's stream sub-expression must evaluate to a stream
    let expr = filter(
        Box::new(Expr::Var(Var::Root)),
        and(vec![*field("name", expr_pred(number(1)))]),
    );
    match run_query(&dump, &expr) {
        Err(Error::Type { expected, .. }) => assert_eq!(expected, "stream"),
        _ => panic!("expected a type error"),
    }
}

#[test]
fn trivial_predicates_fold() {
    let dump = fixture();
    // an empty conjunction is trivially true: the stream is unfiltered
    let expr = filter(nodes(), and(vec![]));
    let plan = compile(&expr).expect("compiles");
    match &plan {
        Plan::Nodes => {}
        _ => panic!("expected the trivially-true filter to vanish"),
    }
    let v = run_query(&dump, &expr).expect("evaluates");
    assert_eq!(drain(v).len(), 3);
    // its negation is trivially false: the result is the empty stream
    let expr2 = filter(nodes(), Box::new(Predicate::Not(and(vec![]))));
    let plan2 = compile(&expr2).expect("compiles");
    match &plan2 {
        Plan::StreamLiteral(elts) => assert!(elts.is_empty()),
        _ => panic!("expected the trivially-false filter to plan the empty stream"),
    }
    let v2 = run_query(&dump, &expr2).expect("evaluates");
    assert!(drain(v2).is_empty());
    // an empty disjunction is trivially false
    let expr3 = filter(nodes(), Box::new(Predicate::Or(vec![])));
    let v3 = run_query(&dump, &expr3).expect("evaluates");
    assert!(drain(v3).is_empty());
}

#[test]
fn regex_predicate_matches_type_names() {
    let dump = fixture();
    let expr = filter(
        nodes(),
        and(vec![*field("typeName", Box::new(Predicate::Regex("Arr".to_owned())))]),
    );
    let v = run_query(&dump, &expr).expect("evaluates");
    let items = drain(v);
    assert_eq!(items.len(), 1);
    assert_eq!(node_id(&items[0]), 0x30);
}

#[test]
fn paths_from_root_enumerates_shortest_paths() {
    let dump = fixture();
    // first (paths root): the first path is the shortest one, to 0x20
    let expr = app(
        app(Box::new(Expr::Var(Var::Root)), Box::new(Expr::Var(Var::Paths))),
        Box::new(Expr::Var(Var::First)),
    );
    let v = run_query(&dump, &expr).expect("evaluates");
    let path = drain(v);
    assert_eq!(path.len(), 3);
    assert_eq!(node_id(&path[0]), 0x10);
    match &path[1] {
        Value::Edge(e) => assert_eq!(e.name.as_ref().expect("named").0, vec![0x61u16]),
        _ => panic!("expected the edge"),
    }
    assert_eq!(node_id(&path[2]), 0x20);
    // all paths from the root, in breadth-first order: to 0x20, then to 0x30
    let expr2 = app(Box::new(Expr::Var(Var::Root)), Box::new(Expr::Var(Var::Paths)));
    let v2 = run_query(&dump, &expr2).expect("evaluates");
    let paths = drain(v2);
    assert_eq!(paths.len(), 2);
    let p1 = drain(paths.into_iter().nth(1).unwrap());
    assert_eq!(p1.len(), 3);
    assert_eq!(node_id(&p1[2]), 0x30);
}

#[test]
fn paths_of_a_leaf_node_is_empty() {
    let dump = fixture();
    // 0x30 has no outgoing edges, so nothing is reachable from it and
    // taking the first path fails
    let inner = filter(
        nodes(),
        and(vec![*field("typeName", Box::new(Predicate::Regex("Array".to_owned())))]),
    );
    let expr = app(
        app(
            app(inner, Box::new(Expr::Var(Var::First))),
            Box::new(Expr::Var(Var::Paths)),
        ),
        Box::new(Expr::Var(Var::First)),
    );
    match run_query(&dump, &expr) {
        Err(Error::EmptyStream) => {}
        _ => panic!("expected the empty-stream error"),
    }
}

#[test]
fn map_applies_a_function_to_each_element() {
    let dump = fixture();
    // map (edges root) (|x| x): identity over the edge stream
    let lambda = Expr::Lambda {
        id: LambdaId(0),
        formals: vec!["x".to_owned()],
        body: Box::new(Expr::Var(Var::Lexical { id: UseId(0), name: "x".to_owned() })),
    };
    // arguments are consumed from the right: the function is applied
    // first, the stream last
    let edges = app(Box::new(Expr::Var(Var::Root)), Box::new(Expr::Var(Var::Edges)));
    let expr = app(edges, app(Box::new(lambda), Box::new(Expr::Var(Var::MapOp))));
    let v = run_query(&dump, &expr).expect("evaluates");
    assert_eq!(drain(v).len(), 2);
}

#[test]
fn partial_application_awaits_the_rest() {
    let dump = fixture();
    // map (edges root): one argument of two; applying the result finishes
    let edges = app(Box::new(Expr::Var(Var::Root)), Box::new(Expr::Var(Var::Edges)));
    let partial = app(edges, Box::new(Expr::Var(Var::MapOp)));
    let v = run_query(&dump, &partial).expect("evaluates");
    match &v {
        Value::Function(_) => {}
        _ => panic!("expected a partial application"),
    }
}

#[test]
fn stream_literal_and_ends_predicate() {
    let dump = fixture();
    // [1, 2, 3] { ends: 3 } tested directly through evaluation: the stream
    // literal evaluates its elements and `first` takes the head
    let lit = Box::new(Expr::StreamLiteral(vec![
        *number(1),
        *number(2),
        *number(3),
    ]));
    let expr = app(lit, Box::new(Expr::Var(Var::First)));
    match run_query(&dump, &expr) {
        Ok(Value::Number(1)) => {}
        _ => panic!("expected the first literal element"),
    }
}

#[test]
fn streams_print_vertically_then_horizontally() {
    let dump = fixture();
    let expr = app(Box::new(Expr::Var(Var::Root)), Box::new(Expr::Var(Var::Edges)));
    let v = run_query(&dump, &expr).expect("evaluates");
    let text = v.top_write().expect("prints");
    assert_eq!(
        text,
        "[\nEdge { name: \"a\", referent: 0x20 }\nEdge { name: \"b\", referent: 0x30 }\n]"
    );
}

#[test]
fn numbers_print_in_decimal_and_ids_in_hex() {
    let v = Value::Number(1234);
    assert_eq!(v.top_write().expect("prints"), "1234");
    assert_eq!(fxsnapshot::print::decimal_text(0), "0");
    assert_eq!(fxsnapshot::print::hex_text(0x10), "10");
    assert_eq!(fxsnapshot::print::hex_text(0xdeadbeef), "deadbeef");
}

#[test]
fn cloned_streams_advance_independently() {
    let items = vec![
        Ok(Value::Number(1)),
        Ok(Value::Number(2)),
        Ok(Value::Number(3)),
    ];
    let mut s1 = fxsnapshot::stream::Stream::new(items);
    match s1.next() {
        Ok(Some(Value::Number(1))) => {}
        _ => panic!("expected 1"),
    }
    let mut s2 = s1.duplicate();
    match s1.next() {
        Ok(Some(Value::Number(2))) => {}
        _ => panic!("expected 2 from the original"),
    }
    match s2.next() {
        Ok(Some(Value::Number(2))) => {}
        _ => panic!("expected 2 from the copy, unaffected by the original"),
    }
    match s1.next() {
        Ok(Some(Value::Number(3))) => {}
        _ => panic!("expected 3 from the original"),
    }
    match s2.next() {
        Ok(Some(Value::Number(3))) => {}
        _ => panic!("expected 3 from the copy"),
    }
}

#[test]
fn budget_exhaustion_is_reported() {
    let dump = fixture();
    // (|x| x x) (|x| x x) cannot finish within any call budget
    let self_app = |use_a: usize, use_b: usize| Expr::Lambda {
        id: LambdaId(0),
        formals: vec!["x".to_owned()],
        body: Box::new(Expr::App {
            arg: Box::new(Expr::Var(Var::Lexical { id: UseId(use_a), name: "x".to_owned() })),
            fun: Box::new(Expr::Var(Var::Lexical { id: UseId(use_b), name: "x".to_owned() })),
        }),
    };
    let expr = app(Box::new(self_app(0, 1)), Box::new(self_app(2, 3)));
    match run_query(&dump, &expr) {
        Err(Error::Budget) => {}
        _ => panic!("expected the budget error"),
    }
}

#[test]
fn closures_capture_their_environment() {
    let dump = fixture();
    // ((|x| (|y| x)) root) 5: the inner closure captures x; calling it
    // with any argument yields the captured root
    let inner = Expr::Lambda {
        id: LambdaId(0),
        formals: vec!["y".to_owned()],
        body: Box::new(Expr::Var(Var::Lexical { id: UseId(0), name: "x".to_owned() })),
    };
    let outer = Expr::Lambda {
        id: LambdaId(0),
        formals: vec!["x".to_owned()],
        body: Box::new(inner),
    };
    let expr = app(
        number(5),
        app(Box::new(Expr::Var(Var::Root)), Box::new(outer)),
    );
    let v = run_query(&dump, &expr).expect("evaluates");
    assert_eq!(node_id(&v), 0x10);
}

#[test]
fn quantifier_predicates_inspect_streams() {
    let dump = fixture();
    let cx = Context::from_dump(&dump);
    let base = ActivationBase::from_context(&cx);
    let act = Activation::for_eval(&base);
    let stream = |ns: &[u64]| {
        Value::Stream(Stream::new(ns.iter().map(|n| Ok(Value::Number(*n))).collect()))
    };
    let equals_two = PredicatePlan::Equal(Box::new(fxsnapshot::run::Plan::ConstNumber(2)));
    // any: one match is enough; all: every element must match
    let any = PredicatePlan::Any(Box::new(PredicatePlan::Equal(Box::new(
        fxsnapshot::run::Plan::ConstNumber(2),
    ))));
    assert_eq!(test_pred(&any, &stream(&[1, 2, 3]), &act, &cx, 8).expect("tests"), true);
    assert_eq!(test_pred(&any, &stream(&[1, 3]), &act, &cx, 8).expect("tests"), false);
    let all = PredicatePlan::All(Box::new(equals_two));
    assert_eq!(test_pred(&all, &stream(&[2, 2]), &act, &cx, 8).expect("tests"), true);
    assert_eq!(test_pred(&all, &stream(&[2, 3]), &act, &cx, 8).expect("tests"), false);
    assert_eq!(test_pred(&all, &stream(&[]), &act, &cx, 8).expect("tests"), true);
    // ends: the stream's last element decides; an empty stream is an error
    let ends = PredicatePlan::Ends(Box::new(PredicatePlan::Equal(Box::new(
        fxsnapshot::run::Plan::ConstNumber(2),
    ))));
    assert_eq!(test_pred(&ends, &stream(&[1, 2]), &act, &cx, 8).expect("tests"), true);
    assert_eq!(test_pred(&ends, &stream(&[2, 1]), &act, &cx, 8).expect("tests"), false);
    match test_pred(&ends, &stream(&[]), &act, &cx, 8) {
        Err(Error::EmptyStream) => {}
        _ => panic!("expected the empty-stream error"),
    }
}

#[test]
fn nested_streams_alternate_orientation() {
    let dump = fixture();
    // a stream of streams: the outer prints vertically, the inner on one line
    let lit = Box::new(Expr::StreamLiteral(vec![Expr::StreamLiteral(vec![
        *number(1),
        *number(2),
    ])]));
    let v = run_query(&dump, &lit).expect("evaluates");
    let text = v.top_write().expect("prints");
    assert_eq!(text, "[
[ 1 2 ]
]");
}

#[test]
fn ill_formed_strings_are_escaped() {
    assert_eq!(one_byte_quoted(&vec![0x61, 0x00, 0xff]), "b\"a\\x00\\xff\"");
    // an unpaired high surrogate prints as an escape; a paired one decodes
    assert_eq!(two_byte_quoted(&vec![0x61, 0xD800]), "\"a\\u{d800}\"");
    assert_eq!(two_byte_quoted(&vec![0xD83D, 0xDE00]), "\"\u{1F600}\"");
}

#[test]
fn coarse_type_field_prints_its_name() {
    let dump = fixture();
    let expr = filter(
        nodes(),
        and(vec![*field(
            "coarseType",
            Box::new(Predicate::Expr(Expr::String("Other".to_owned()))),
        )]),
    );
    let v = run_query(&dump, &expr).expect("evaluates");
    assert_eq!(drain(v).len(), 3);
}

#[test]
fn back_references_resolve_against_the_interning_tables() {
    // two-byte strings intern in scan order: the root's edge names "a" and
    // "b", then "c", then "Array"; a later node can refer back by index
    let mut out = Vec::new();
    message(&[], &mut out); // metadata with no timestamp
    let mut root = Vec::new();
    varint_field(1, 0x10, &mut root);
    bytes_field(3, &edge_msg(0x20, "a"), &mut root);
    bytes_field(3, &edge_msg(0x30, "b"), &mut root);
    message(&root, &mut out);
    let mut n20 = Vec::new();
    varint_field(1, 0x20, &mut n20);
    bytes_field(3, &edge_msg(0x30, "c"), &mut n20);
    bytes_field(8, b"Obj", &mut n20); // one-byte class name, interned at 0
    message(&n20, &mut out);
    let mut n30 = Vec::new();
    varint_field(1, 0x30, &mut n30);
    bytes_field(6, &utf16("Array"), &mut n30); // two-byte index 3
    message(&n30, &mut out);
    let mut n40 = Vec::new();
    varint_field(1, 0x40, &mut n40);
    varint_field(7, 3, &mut n40); // typeNameRef -> "Array"
    varint_field(11, 0, &mut n40); // scriptFilenameRef -> "Obj" (shared table)
    message(&n40, &mut out);
    let dump = CoreDump::from_bytes("fixture", &out).expect("decodes");
    assert_eq!(dump.timestamp, None);
    let n40 = dump.get_node(fxsnapshot::dump::NodeId(0x40)).expect("present");
    let tn = n40.typeName.as_ref().expect("resolved back-reference");
    assert_eq!(tn.0, "Array".encode_utf16().collect::<Vec<u16>>());
    let sf = n40.scriptFilename.as_ref().expect("resolved back-reference");
    assert_eq!(sf.0, b"Obj".to_vec());
}

#[test]
fn a_back_reference_past_the_table_is_a_decode_error() {
    let mut out = Vec::new();
    message(&[], &mut out);
    let mut root = Vec::new();
    varint_field(1, 0x10, &mut root);
    varint_field(7, 5, &mut root); // no two-byte string was interned yet
    message(&root, &mut out);
    assert!(CoreDump::from_bytes("fixture", &out).is_err());
}

#[test]
fn a_repeated_node_id_overwrites_silently() {
    let mut out = Vec::new();
    message(&[], &mut out);
    let mut root = Vec::new();
    varint_field(1, 0x10, &mut root);
    message(&root, &mut out);
    let mut again = Vec::new();
    varint_field(1, 0x10, &mut again);
    varint_field(2, 7, &mut again); // the same id, now with a size
    message(&again, &mut out);
    let dump = CoreDump::from_bytes("fixture", &out).expect("decodes");
    assert_eq!(dump.nodes().len(), 1);
    assert_eq!(dump.get_root().size, Some(7));
}

#[test]
fn an_odd_two_byte_string_is_a_decode_error() {
    let mut out = Vec::new();
    message(&[], &mut out);
    let mut root = Vec::new();
    varint_field(1, 0x10, &mut root);
    bytes_field(6, &[0x41], &mut root); // one byte cannot be code units
    message(&root, &mut out);
    assert!(CoreDump::from_bytes("fixture", &out).is_err());
}

#[test]
fn a_dangling_edge_referent_is_not_an_error() {
    let mut out = Vec::new();
    message(&[], &mut out);
    let mut root = Vec::new();
    varint_field(1, 0x10, &mut root);
    bytes_field(3, &edge_msg(0x99, "gone"), &mut root);
    message(&root, &mut out);
    let dump = CoreDump::from_bytes("fixture", &out).expect("decodes");
    // the field still yields the number, and lookups elsewhere come up absent
    assert_eq!(dump.get_root().edges[0].referent, Some(fxsnapshot::dump::NodeId(0x99)));
    assert!(!dump.has_node(fxsnapshot::dump::NodeId(0x99)));
    // paths from the root ignore the unresolvable referent
    let expr = app(Box::new(Expr::Var(Var::Root)), Box::new(Expr::Var(Var::Paths)));
    let v = run_query(&dump, &expr).expect("evaluates");
    assert!(drain(v).is_empty());
}

#[test]
fn id_hoisting_accepts_a_computed_id() {
    let dump = fixture();
    // nodes { id: first [0x30] }: the hoisted lookup evaluates its id
    // expression at run time
    let lit = Box::new(Expr::StreamLiteral(vec![*number(0x30)]));
    let id_expr = app(lit, Box::new(Expr::Var(Var::First)));
    let expr = filter(nodes(), and(vec![*field("id", expr_pred(id_expr))]));
    let plan = compile(&expr).expect("compiles");
    match &plan {
        Plan::NodesById(_) => {}
        _ => panic!("expected the id-hoist rewrite to fire"),
    }
    let v = run_query(&dump, &expr).expect("evaluates");
    let items = drain(v);
    assert_eq!(items.len(), 1);
    assert_eq!(node_id(&items[0]), 0x30);
}

#[test]
fn a_filter_predicate_reads_captured_variables() {
    let dump = fixture();
    // (|x| (edges root) { referent: x }) 0x30: the filter's predicate frame
    // captures x from the enclosing lambda and reads it per element
    let edges = app(Box::new(Expr::Var(Var::Root)), Box::new(Expr::Var(Var::Edges)));
    let body = filter(
        edges,
        and(vec![*field(
            "referent",
            expr_pred(Box::new(Expr::Var(Var::Lexical { id: UseId(0), name: "x".to_owned() }))),
        )]),
    );
    let lambda = Expr::Lambda { id: LambdaId(0), formals: vec!["x".to_owned()], body };
    let expr = app(number(0x30), Box::new(lambda));
    let v = run_query(&dump, &expr).expect("evaluates");
    let items = drain(v);
    assert_eq!(items.len(), 1);
    match &items[0] {
        Value::Edge(e) => assert_eq!(e.name.as_ref().expect("named").0, vec![0x62u16]),
        _ => panic!("expected the edge to 0x30"),
    }
}

#[test]
fn type_errors_name_both_sides() {
    let dump = fixture();
    // first root: first expects a stream
    let expr = app(Box::new(Expr::Var(Var::Root)), Box::new(Expr::Var(Var::First)));
    match run_query(&dump, &expr) {
        Err(Error::Type { expected, actual }) => {
            assert_eq!(expected, "stream");
            assert_eq!(actual, "node");
        }
        _ => panic!("expected a type error"),
    }
}

#[test]
fn applying_a_non_function_is_an_error() {
    let dump = fixture();
    // root root: the function position holds a node
    let expr = app(Box::new(Expr::Var(Var::Root)), Box::new(Expr::Var(Var::Root)));
    match run_query(&dump, &expr) {
        Err(Error::NotAFunction) => {}
        _ => panic!("expected the not-a-function error"),
    }
}

#[test]
fn a_regex_that_does_not_compile_is_a_static_error() {
    let expr = filter(
        nodes(),
        and(vec![*field("typeName", Box::new(Predicate::Regex("(".to_owned())))]),
    );
    match compile(&expr) {
        Err(StaticError::Parse(p)) => assert_eq!(p, "("),
        _ => panic!("expected the parse error"),
    }
}
