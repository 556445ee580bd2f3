use kotlinrs::calls::{
    args_of, array_init, invoke_closure, join_display, lazy_get, make_closure, make_comparator,
    may_nest, precond, result_hof, run_catching, scope_fn, takes_base, Invocation,
    NESTED_RUN_LIMIT,
};
use kotlinrs::hof::{CallArgs, Step};
use kotlinrs::jobs::{advance, count_each, materialize, note, start, Job, Progress};
use kotlinrs::lazyseq::{endless_fault, gen_pull, genseq, stage_of, Place};
use kotlinrs::reply::settle;
use kotlinrs::value::{char_of, truthy, HeapObj, Stage};
use kotlinrs::display::kotlin_string;
use kotlinrs::format::{format_string, Formatted};
use kotlinrs::host::Host;
use kotlinrs::members::{finish, kt_method};
use kotlinrs::reply::{Answer, FloatOp, FloatTask, NumberText};
use kotlinrs::value::{Double, Value};

fn double(x: f64) -> Double {
    if x == 0.0 || !x.is_finite() {
        return Double { bits: x.to_bits(), digits: "0".to_string(), exp10: 0 };
    }
    let s = format!("{:e}", x.abs());
    match s.split_once('e') {
        Some((m, e)) => Double {
            bits: x.to_bits(),
            digits: m.replace('.', ""),
            exp10: e.parse().unwrap_or(0),
        },
        None => panic!("{}", s),
    }
}

fn num(h: &mut Host, x: f64) -> Value {
    h.double_value(double(x))
}

fn text(h: &mut Host, s: &str) -> Value {
    h.text_value(s.to_string())
}

fn float_of(h: &Host, v: Value) -> f64 {
    f64::from_bits(h.to_double(v))
}

fn computed(h: &mut Host, t: FloatTask) -> Value {
    let a = float_of(h, t.a);
    let b = float_of(h, t.b);
    let r = match t.op {
        FloatOp::Add => a + b,
        FloatOp::Sub => a - b,
        FloatOp::Mul => a * b,
        FloatOp::Div => a / b,
        FloatOp::Rem => a % b,
        FloatOp::Pow => a.powf(b),
        FloatOp::Neg => -a,
        FloatOp::Abs => a.abs(),
        FloatOp::Sqrt => a.sqrt(),
        FloatOp::Floor => a.floor(),
        FloatOp::Ceil => a.ceil(),
        FloatOp::Round => a.round_ties_even(),
        FloatOp::Convert => a,
        FloatOp::Lt => return Value::Bool(a < b),
        FloatOp::Gt => return Value::Bool(a > b),
        FloatOp::Le => return Value::Bool(a <= b),
        FloatOp::Ge => return Value::Bool(a >= b),
        FloatOp::Eq => return Value::Bool(a == b),
        FloatOp::Ne => return Value::Bool(a != b),
    };
    num(h, r)
}

fn formatted(h: &Host, fmt: &str, args: &Vec<Value>) -> Result<String, String> {
    let mut log: Vec<String> = Vec::new();
    loop {
        match format_string(h, fmt, args, &log) {
            Formatted::Done(s) => return Ok(s),
            Formatted::Fault(m) => return Err(m),
            Formatted::Render(v, prec) => {
                log.push(format!("{:.*e}", prec as usize, float_of(h, v)));
            }
        }
    }
}

fn answered(h: &mut Host, a: Answer) -> Result<Value, String> {
    match a {
        Answer::Value(v) => Ok(v),
        Answer::Fault(m) => Err(m),
        Answer::Compute(t) => Ok(computed(h, t)),
        Answer::Sum(vs) => {
            let total = vs.iter().map(|v| float_of(h, *v)).sum::<f64>();
            Ok(num(h, total))
        }
        Answer::Average(vs) => {
            let total = vs.iter().map(|v| float_of(h, *v)).sum::<f64>();
            let n = vs.len() as f64;
            Ok(num(h, total / n))
        }
        Answer::Read(NumberText::Decimal { negative, body }) => {
            let x: f64 = body.parse().unwrap_or(f64::NAN);
            Ok(num(h, if negative { -x } else { x }))
        }
        Answer::Read(NumberText::Infinity { negative }) => {
            Ok(num(h, if negative { f64::NEG_INFINITY } else { f64::INFINITY }))
        }
        Answer::Read(NumberText::NotANumber) => Ok(num(h, f64::NAN)),
        Answer::Format(fmt, args) => match formatted(h, fmt.as_str(), &args) {
            Ok(s) => Ok(h.text_value(s)),
            Err(m) => Err(m),
        },
        other => panic!("{:?}", other),
    }
}

fn call(h: &mut Host, recv: Value, name: &str, args: Vec<Value>) -> Result<Value, String> {
    let reply = match kt_method(h, recv, name, &args, &Vec::new()) {
        Ok(r) => r,
        Err(stop) => panic!("{:?}", stop),
    };
    let a = finish(h, recv, name, reply);
    answered(h, a)
}

fn said(h: &mut Host, recv: Value, name: &str, args: Vec<Value>) -> String {
    match call(h, recv, name, args) {
        Ok(v) => kotlin_string(h, v),
        Err(m) => format!("! {}", m),
    }
}

fn ints(ns: &[i64]) -> Vec<Value> {
    ns.iter().map(|n| Value::Int(*n)).collect()
}

fn list(h: &mut Host, ns: &[i64]) -> Value {
    h.allocate(HeapObj::List(ints(ns)))
}

/// A lambda, told apart by its number.
fn lambda(h: &mut Host, n: u16) -> Value {
    h.allocate(HeapObj::Closure { name_idx: n, params: 2, captures: Vec::new() })
}

fn body(h: &Host, f: Value) -> u16 {
    match h.obj(f) {
        Some(HeapObj::Closure { name_idx, .. }) => *name_idx,
        other => panic!("{:?}", other),
    }
}

fn whole(v: Value) -> i64 {
    match v {
        Value::Int(n) => n,
        other => panic!("{:?}", other),
    }
}

const DOUBLE: u16 = 1;
const EVEN: u16 = 2;
const ADD: u16 = 3;
const NEXT: u16 = 4;
const SMALL: u16 = 5;
const MOD3: u16 = 6;
const BY_DIFFERENCE: u16 = 7;
const NOTHING: u16 = 8;
const TWIN: u16 = 9;
const NEGATE: u16 = 10;
const APPEND: u16 = 11;
const COLLECT: u16 = 12;

fn run_body(h: &mut Host, f: Value, a: &Vec<Value>) -> Value {
    match body(h, f) {
        DOUBLE => Value::Int(whole(a[0]) * 2),
        EVEN => Value::Bool(whole(a[0]) % 2 == 0),
        ADD => Value::Int(whole(a[0]) + whole(a[1])),
        NEXT => Value::Int(whole(a[0]) + 1),
        SMALL => Value::Bool(whole(a[0]) < 3),
        MOD3 => Value::Int(whole(a[0]) % 3),
        BY_DIFFERENCE => Value::Int(whole(a[1]) - whole(a[0])),
        NOTHING => Value::Undef,
        TWIN => {
            let x = a[0];
            h.allocate(HeapObj::List(vec![x, x]))
        }
        NEGATE => Value::Int(-whole(a[0])),
        // Both answer the object that the first one made, changed once more.
        APPEND | COLLECT => {
            let name = if body(h, f) == APPEND { "append" } else { "add" };
            let shared = Value::Obj(0);
            match call(h, shared, name, vec![a[0]]) {
                Ok(_) => shared,
                Err(m) => panic!("{}", m),
            }
        }
        n => panic!("{}", n),
    }
}

fn drive(h: &mut Host, first: Progress, calls: &mut usize) -> Result<Value, String> {
    let mut p = first;
    let mut job: Option<Job> = None;
    let mut results: Vec<Value> = Vec::new();
    loop {
        match p {
            Progress::Call(f, a) => {
                *calls += 1;
                let r = run_body(h, f, &args_of(a));
                match &mut job {
                    Some(j) => assert_eq!(note(h, j, results.len(), r, &Vec::new()), Ok(())),
                    None => panic!("a job starts first"),
                }
                results.push(r);
            }
            Progress::Next(j) => {
                job = Some(j);
                results = Vec::new();
            }
            Progress::Done(r) => {
                let a = settle(h, r);
                return answered(h, a);
            }
        }
        p = match &job {
            Some(j) => match advance(h, j, &results, &Vec::new()) {
                Ok(next) => next,
                Err(stop) => panic!("{:?}", stop),
            },
            None => panic!("a job starts first"),
        };
    }
}

fn hof(h: &mut Host, recv: Value, name: &str, extras: Vec<Value>, f: u16) -> String {
    let lam = lambda(h, f);
    let mut calls = 0;
    let p = start(h, name, recv, &extras, lam);
    match drive(h, p, &mut calls) {
        Ok(v) => kotlin_string(h, v),
        Err(m) => format!("! {}", m),
    }
}

fn on_list(ns: &[i64], name: &str, f: u16) -> String {
    let mut h = Host::new();
    let l = list(&mut h, ns);
    hof(&mut h, l, name, vec![], f)
}

#[test]
fn mapping_and_filtering() {
    assert_eq!(on_list(&[1, 2, 3], "map", DOUBLE), "[2, 4, 6]");
    assert_eq!(on_list(&[1, 2, 3, 4], "filter", EVEN), "[2, 4]");
    assert_eq!(on_list(&[1, 2, 3, 4], "filterNot", EVEN), "[1, 3]");
    assert_eq!(on_list(&[5, 6], "mapIndexed", ADD), "[5, 7]");
    assert_eq!(on_list(&[1, 2], "flatMap", TWIN), "[1, 1, 2, 2]");
    assert_eq!(on_list(&[1, 2, 3, 4], "partition", EVEN), "([2, 4], [1, 3])");
    assert_eq!(on_list(&[1, 2, 3, 1], "takeWhile", SMALL), "[1, 2]");
    assert_eq!(on_list(&[1, 2, 3, 1], "dropWhile", SMALL), "[3, 1]");
    assert_eq!(on_list(&[1, 2], "mapNotNull", NOTHING), "[]");
    assert_eq!(on_list(&[1, 2], "forEach", DOUBLE), "null");
}

#[test]
fn folding() {
    let mut h = Host::new();
    let l = list(&mut h, &[1, 2, 3]);
    assert_eq!(hof(&mut h, l, "fold", ints(&[10]), ADD), "16");
    assert_eq!(hof(&mut h, l, "reduce", vec![], ADD), "6");
    assert_eq!(hof(&mut h, l, "foldRight", ints(&[10]), BY_DIFFERENCE), "4");
    assert_eq!(hof(&mut h, l, "sumOf", vec![], DOUBLE), "12");
    let empty = list(&mut h, &[]);
    assert_eq!(
        hof(&mut h, empty, "reduce", vec![], ADD),
        "! java.lang.UnsupportedOperationException: Empty collection can't be reduced."
    );
}

#[test]
fn asking_about_elements() {
    assert_eq!(on_list(&[1, 2, 3], "any", EVEN), "true");
    assert_eq!(on_list(&[1, 2, 3], "all", EVEN), "false");
    assert_eq!(on_list(&[1, 3], "none", EVEN), "true");
    assert_eq!(on_list(&[1, 2, 3, 4], "count", EVEN), "2");
    assert_eq!(on_list(&[1, 2, 4], "first", EVEN), "2");
    assert_eq!(on_list(&[1, 2, 4], "last", EVEN), "4");
    assert_eq!(on_list(&[1, 3], "find", EVEN), "null");
    assert_eq!(on_list(&[1, 2, 3], "single", EVEN), "2");
    assert_eq!(on_list(&[1, 2, 4], "indexOfFirst", EVEN), "1");
    assert_eq!(on_list(&[1, 2, 4], "indexOfLast", EVEN), "2");
    assert_eq!(
        on_list(&[1, 3], "first", EVEN),
        "! java.util.NoSuchElementException: Collection contains no element matching the predicate."
    );
    assert_eq!(
        on_list(&[2, 4], "single", EVEN),
        "! java.lang.IllegalArgumentException: Collection contains more than one matching element."
    );
}

#[test]
fn searches_stop_early() {
    let mut h = Host::new();
    let l = list(&mut h, &[1, 2, 3, 4]);
    for (name, want) in [("any", 2), ("first", 2), ("indexOfFirst", 2), ("all", 1), ("takeWhile", 1)] {
        let lam = lambda(&mut h, EVEN);
        let mut calls = 0;
        let p = start(&mut h, name, l, &Vec::new(), lam);
        assert!(drive(&mut h, p, &mut calls).is_ok());
        assert_eq!(calls, want, "{}", name);
    }
}

#[test]
fn ordering_by_keys() {
    assert_eq!(on_list(&[3, 1, 2], "sortedBy", NEGATE), "[3, 2, 1]");
    assert_eq!(on_list(&[3, 1, 2], "sortedByDescending", NEGATE), "[1, 2, 3]");
    assert_eq!(on_list(&[3, 1, 2], "maxByOrNull", NEGATE), "1");
    assert_eq!(on_list(&[3, 1, 2], "minByOrNull", NEGATE), "3");
    assert_eq!(on_list(&[3, 1, 2], "maxOf", DOUBLE), "6");
    assert_eq!(on_list(&[3, 1, 2], "sortedWith", BY_DIFFERENCE), "[3, 2, 1]");
    assert_eq!(on_list(&[1, 4, 2, 5], "sortedBy", MOD3), "[1, 4, 2, 5]");
}

#[test]
fn comparators_chain_their_keys() {
    let mut h = Host::new();
    let l = list(&mut h, &[5, 4, 3, 2, 1]);
    let key = lambda(&mut h, MOD3);
    let tie = lambda(&mut h, DOUBLE);
    let o = make_comparator(&h, "compareBy", Value::Undef, &vec![key]);
    let first = h.allocate(o);
    let o = make_comparator(&h, "thenByDescending", first, &vec![tie]);
    let both = h.allocate(o);
    assert!(takes_base("thenBy"));
    assert!(!takes_base("compareBy"));
    assert_eq!(h.obj(both), Some(&HeapObj::Comparator(vec![(key, false), (tie, true)])));
    assert_eq!(h.obj(first), Some(&HeapObj::Comparator(vec![(key, false)])));
    let p = start(&mut h, "sortedWith", l, &Vec::new(), both);
    match drive(&mut h, p, &mut 0) {
        Ok(v) => assert_eq!(kotlin_string(&h, v), "[3, 4, 1, 5, 2]"),
        Err(m) => panic!("{}", m),
    }
}

#[test]
fn sorting_keeps_equal_elements_in_order() {
    let mut h = Host::new();
    let l = list(&mut h, &[4, 2, 7, 5, 1, 3]);
    let key = lambda(&mut h, MOD3);
    let o = make_comparator(&h, "compareBy", Value::Undef, &vec![key]);
    let by = h.allocate(o);
    let p = start(&mut h, "sortedWith", l, &Vec::new(), by);
    match drive(&mut h, p, &mut 0) {
        Ok(v) => assert_eq!(kotlin_string(&h, v), "[3, 4, 7, 1, 2, 5]"),
        Err(m) => panic!("{}", m),
    }
    // One comparison for each of the places that are in order already.
    let steps: Vec<i64> = (0..500).rev().collect();
    let l = list(&mut h, &steps);
    let by = lambda(&mut h, BY_DIFFERENCE);
    let mut calls = 0;
    let p = start(&mut h, "sortedWith", l, &Vec::new(), by);
    match drive(&mut h, p, &mut calls) {
        Ok(v) => assert_eq!(h.obj(v), Some(&HeapObj::List(ints(&steps)))),
        Err(m) => panic!("{}", m),
    }
    assert_eq!(calls, 499);
}

#[test]
fn grouping_and_associating() {
    assert_eq!(on_list(&[1, 2, 3, 4], "groupBy", MOD3), "{1=[1, 4], 2=[2], 0=[3]}");
    assert_eq!(on_list(&[1, 2], "associateWith", DOUBLE), "{1=2, 2=4}");
    assert_eq!(on_list(&[1, 4, 2], "associateBy", MOD3), "{1=4, 2=2}");
    let mut h = Host::new();
    let key = lambda(&mut h, MOD3);
    let job = count_each(ints(&[1, 2, 4, 3]), key);
    match drive(&mut h, Progress::Next(job), &mut 0) {
        Ok(v) => assert_eq!(kotlin_string(&h, v), "{1=2, 2=1, 0=1}"),
        Err(m) => panic!("{}", m),
    }
}

#[test]
fn results_are_noted_as_they_come() {
    let mut h = Host::new();
    let shared = list(&mut h, &[]);
    assert_eq!(shared, Value::Obj(0));
    let l = list(&mut h, &[1, 2, 3]);
    assert_eq!(hof(&mut h, l, "flatMap", vec![], COLLECT), "[1, 1, 2, 1, 2, 3]");
    let mut h = Host::new();
    let o = kotlinrs::builder::new_builder(&h, None);
    let shared = h.allocate(o);
    assert_eq!(shared, Value::Obj(0));
    let l = list(&mut h, &[1, 2, 3]);
    assert_eq!(hof(&mut h, l, "joinToString", vec![], APPEND), "1, 12, 123");
}

#[test]
fn keys_are_kept_apart() {
    let mut h = Host::new();
    let l = list(&mut h, &[1, 2, 1, 3, 2]);
    assert_eq!(hof(&mut h, l, "associateWith", vec![], DOUBLE), "{1=2, 2=4, 3=6}");
    let m = h.allocate(HeapObj::MapObj(vec![(Value::Int(1), Value::Int(5)), (Value::Int(4), Value::Int(6))]));
    assert_eq!(hof(&mut h, m, "mapValues", vec![], NOTHING), "{1=null, 4=null}");
    assert_eq!(hof(&mut h, m, "mapKeys", vec![], NOTHING), "{null=6}");
    assert_eq!(hof(&mut h, l, "associate", vec![], DOUBLE), "! kotlin: associate expects a Pair");
}

#[test]
fn filtering_keeps_the_kind() {
    let mut h = Host::new();
    let s = h.allocate(HeapObj::SetObj(ints(&[1, 2, 3, 4])));
    assert_eq!(hof(&mut h, s, "filter", vec![], EVEN), "[2, 4]");
    let lam = lambda(&mut h, EVEN);
    let p = start(&mut h, "filter", s, &Vec::new(), lam);
    match drive(&mut h, p, &mut 0) {
        Ok(v) => assert_eq!(h.obj(v), Some(&HeapObj::SetObj(ints(&[2, 4])))),
        Err(m) => panic!("{}", m),
    }
    let m = h.allocate(HeapObj::MapObj(vec![(Value::Int(1), Value::Int(2)), (Value::Int(2), Value::Int(3))]));
    assert_eq!(hof(&mut h, m, "filterKeys", vec![], EVEN), "{2=3}");
    assert_eq!(hof(&mut h, m, "filterValues", vec![], EVEN), "{1=2}");
}

#[test]
fn transforms_of_groups() {
    let mut h = Host::new();
    let l = list(&mut h, &[1, 2, 3]);
    assert_eq!(hof(&mut h, l, "zipWithNext", vec![], ADD), "[3, 5]");
    let m = list(&mut h, &[10, 20]);
    assert_eq!(hof(&mut h, l, "zip", vec![m], ADD), "[11, 22]");
    assert_eq!(hof(&mut h, l, "joinToString", vec![], DOUBLE), "2, 4, 6");
    assert_eq!(hof(&mut h, l, "getOrElse", ints(&[9]), DOUBLE), "18");
    assert_eq!(hof(&mut h, l, "forEachIndexed", vec![], ADD), "null");
    assert_eq!(hof(&mut h, l, "filterIndexed", vec![], EVEN), "[1, 3]");
}

fn naturals(h: &mut Host) -> Value {
    let step = lambda(h, NEXT);
    h.allocate(genseq(Value::Int(1), step))
}

fn staged(h: &mut Host, gen: Value, name: &str, f: u16) -> Value {
    let lam = lambda(h, f);
    let p = start(h, name, gen, &Vec::new(), lam);
    match drive(h, p, &mut 0) {
        Ok(v) => v,
        Err(m) => panic!("{}", m),
    }
}

fn pulled(h: &mut Host, gen: Value, want: Option<usize>) -> Result<Vec<Value>, String> {
    let mut p = match gen_pull(h, gen, want) {
        Some(p) => p,
        None => panic!("not a lazy sequence"),
    };
    while let Some((f, a)) = p.call() {
        let r = run_body(h, f, &args_of(a));
        p.note(r);
    }
    match p.place {
        Place::Endless => Err(endless_fault()),
        _ => Ok(p.out),
    }
}

#[test]
fn lazy_stages_run_nothing() {
    let mut h = Host::new();
    let gen = naturals(&mut h);
    let lam = lambda(&mut h, EVEN);
    let mut calls = 0;
    let p = start(&mut h, "filter", gen, &Vec::new(), lam);
    assert!(drive(&mut h, p, &mut calls).is_ok());
    assert_eq!(calls, 0);
    assert_eq!(stage_of("map", lam), Some(Stage::Apply(lam)));
    assert_eq!(stage_of("fold", lam), None);
}

#[test]
fn lazy_pipelines_pull_what_they_need() {
    let mut h = Host::new();
    let gen = naturals(&mut h);
    let even = staged(&mut h, gen, "filter", EVEN);
    let twice = staged(&mut h, even, "map", DOUBLE);
    assert_eq!(pulled(&mut h, twice, Some(3)), Ok(ints(&[4, 8, 12])));
    // The base is not consumed.
    assert_eq!(pulled(&mut h, gen, Some(2)), Ok(ints(&[1, 2])));
    assert_eq!(hof(&mut h, gen, "first", vec![], EVEN), "2");
    assert_eq!(hof(&mut h, gen, "any", vec![], EVEN), "true");
    let small = staged(&mut h, gen, "takeWhile", SMALL);
    assert_eq!(pulled(&mut h, small, None), Ok(ints(&[1, 2])));
    assert_eq!(hof(&mut h, small, "fold", ints(&[0]), ADD), "3");
    let taken = match call(&mut h, gen, "take", ints(&[3])) {
        Ok(v) => v,
        Err(m) => panic!("{}", m),
    };
    assert_eq!(pulled(&mut h, taken, None), Ok(ints(&[1, 2, 3])));
    let listed = materialize(&mut h, ints(&[1, 2]));
    assert!(h.is_sequence_view(listed));
}

#[test]
fn scope_functions() {
    let f = Value::Int(0);
    let x = Value::Int(7);
    let none = Vec::new();
    assert_eq!(scope_fn("let", x, f, &none), Step::Call(f, CallArgs::One(x)));
    let one = vec![Value::Bool(true)];
    let done = |name: &str, r: &Vec<Value>| match scope_fn(name, x, f, r) {
        Step::Done(kotlinrs::reply::Reply::Value(v)) => v,
        other => panic!("{:?}", other),
    };
    assert_eq!(done("let", &one), Value::Bool(true));
    assert_eq!(done("also", &one), x);
    assert_eq!(done("apply", &one), x);
    assert_eq!(done("takeIf", &one), x);
    assert_eq!(done("takeUnless", &one), Value::Undef);
    match scope_fn("nope", x, f, &none) {
        Step::Done(kotlinrs::reply::Reply::Fault(m)) => assert_eq!(m, "unresolved reference: nope"),
        other => panic!("{:?}", other),
    }
}

#[test]
fn results_are_total() {
    let mut h = Host::new();
    let r = run_catching(&mut h, Ok(Value::Int(5)));
    let ok = match settle(&mut h, r) {
        Answer::Value(v) => v,
        other => panic!("{:?}", other),
    };
    assert_eq!(kotlin_string(&h, ok), "Success(5)");
    assert_eq!(said(&mut h, ok, "isSuccess", vec![]), "true");
    assert_eq!(said(&mut h, ok, "getOrNull", vec![]), "5");
    let e = h.allocate(HeapObj::Exc { class: "java.lang.Exception".to_string(), msg: Some("no".to_string()) });
    h.pending = Some(e);
    let r = run_catching(&mut h, Ok(Value::Undef));
    assert_eq!(h.pending, None);
    let bad = match settle(&mut h, r) {
        Answer::Value(v) => v,
        other => panic!("{:?}", other),
    };
    assert_eq!(kotlin_string(&h, bad), "Failure(java.lang.Exception: no)");
    assert_eq!(said(&mut h, bad, "isFailure", vec![]), "true");
    assert_eq!(said(&mut h, bad, "getOrNull", vec![]), "null");
    let f = Value::Int(0);
    assert_eq!(result_hof(&h, "getOrElse", bad, f, &Vec::new()), Step::Call(f, CallArgs::One(e)));
    assert_eq!(result_hof(&h, "onFailure", bad, f, &Vec::new()), Step::Call(f, CallArgs::One(e)));
    match result_hof(&h, "onSuccess", bad, f, &Vec::new()) {
        Step::Done(kotlinrs::reply::Reply::Value(v)) => assert_eq!(v, bad),
        other => panic!("{:?}", other),
    }
}

#[test]
fn a_lazy_cell_runs_once() {
    let mut h = Host::new();
    let thunk = lambda(&mut h, NOTHING);
    let cell = h.allocate(HeapObj::Lazy { thunk, cached: None });
    assert_eq!(lazy_get(&h, cell, &Vec::new()), Step::Call(thunk, CallArgs::Nothing));
    match lazy_get(&h, cell, &ints(&[42])) {
        Step::Done(r) => {
            let a = settle(&mut h, r);
            assert_eq!(answered(&mut h, a), Ok(Value::Int(42)));
        }
        other => panic!("{:?}", other),
    }
    match lazy_get(&h, cell, &Vec::new()) {
        Step::Done(kotlinrs::reply::Reply::Value(v)) => assert_eq!(v, Value::Int(42)),
        other => panic!("{:?}", other),
    }
}

#[test]
fn a_cell_that_was_filled_meanwhile_takes_the_later_value() {
    let mut h = Host::new();
    let thunk = lambda(&mut h, NOTHING);
    let cell = h.allocate(HeapObj::Lazy { thunk, cached: Some(Value::Int(1)) });
    match lazy_get(&h, cell, &ints(&[2])) {
        Step::Done(r) => {
            let a = settle(&mut h, r);
            assert_eq!(answered(&mut h, a), Ok(Value::Int(2)));
        }
        other => panic!("{:?}", other),
    }
    assert_eq!(h.obj(cell), Some(&HeapObj::Lazy { thunk, cached: Some(Value::Int(2)) }));
}

#[test]
fn arrays_are_filled_by_index() {
    let f = Value::Int(0);
    assert_eq!(array_init(2, "[I", f, &ints(&[0])), Step::Call(f, CallArgs::One(Value::Int(1))));
    match array_init(2, "[I", f, &ints(&[0, 2])) {
        Step::Done(kotlinrs::reply::Reply::Object(HeapObj::Array { items, desc })) => {
            assert_eq!(items, ints(&[0, 2]));
            assert_eq!(desc, "[I");
        }
        other => panic!("{:?}", other),
    }
    match array_init(-1, "[I", f, &Vec::new()) {
        Step::Done(kotlinrs::reply::Reply::Fault(m)) => {
            assert_eq!(m, "java.lang.NegativeArraySizeException: -1")
        }
        other => panic!("{:?}", other),
    }
}

#[test]
fn preconditions_run_their_message_late() {
    let mut h = Host::new();
    let message = lambda(&mut h, NOTHING);
    let t = text(&mut h, "too small");
    let fault = |s: Step| match s {
        Step::Done(kotlinrs::reply::Reply::Fault(m)) => m,
        other => panic!("{:?}", other),
    };
    match precond(&h, "require", &vec![Value::Bool(true), message], &Vec::new()) {
        Step::Done(kotlinrs::reply::Reply::Value(v)) => assert!(!truthy(&v)),
        other => panic!("{:?}", other),
    }
    assert_eq!(
        precond(&h, "require", &vec![Value::Bool(false), message], &Vec::new()),
        Step::Call(message, CallArgs::Nothing)
    );
    assert_eq!(
        fault(precond(&h, "require", &vec![Value::Bool(false), message], &vec![t])),
        "java.lang.IllegalArgumentException: too small"
    );
    assert_eq!(
        fault(precond(&h, "check", &vec![Value::Bool(false)], &Vec::new())),
        "java.lang.IllegalStateException: Check failed."
    );
    assert_eq!(
        fault(precond(&h, "requireNotNull", &vec![Value::Undef], &Vec::new())),
        "java.lang.IllegalArgumentException: Required value was null."
    );
    assert_eq!(
        fault(precond(&h, "error", &vec![t], &Vec::new())),
        "java.lang.IllegalStateException: too small"
    );
    assert_eq!(
        fault(precond(&h, "TODO", &Vec::new(), &Vec::new())),
        "kotlin.NotImplementedError: An operation is not implemented."
    );
}

#[test]
fn closures_are_invoked_on_a_frame() {
    let mut h = Host::new();
    let o = make_closure(&h, &ints(&[8, 9]), Value::Int(4), Value::Int(2));
    let f = h.allocate(o);
    match invoke_closure(&h, f, &ints(&[1])) {
        Invocation::Run(sub, frame) => {
            assert_eq!(sub, 4);
            assert_eq!(frame, vec![Value::Int(1), Value::Undef, Value::Int(8), Value::Int(9)]);
        }
        other => panic!("{:?}", other),
    }
    assert_eq!(
        invoke_closure(&h, Value::Int(1), &Vec::new()),
        Invocation::Fault("kotlin: value is not a function".to_string())
    );
    h.pending = Some(Value::Undef);
    assert_eq!(invoke_closure(&h, f, &Vec::new()), Invocation::Skip);
    assert!(may_nest(NESTED_RUN_LIMIT - 1));
    assert!(!may_nest(NESTED_RUN_LIMIT));
}

#[test]
fn joining_asks_for_declared_texts() {
    let mut h = Host::new();
    let l = list(&mut h, &[1, 2]);
    assert_eq!(join_display(&h, l, None, &Vec::new()), Ok("1, 2".to_string()));
    let sep = text(&mut h, "/");
    assert_eq!(join_display(&h, l, Some(sep), &Vec::new()), Ok("1/2".to_string()));
}

#[test]
fn characters_of_a_text_are_elements() {
    let mut h = Host::new();
    let s = text(&mut h, "ab");
    let lam = lambda(&mut h, EVEN);
    match start(&mut h, "map", s, &Vec::new(), lam) {
        Progress::Next(j) => match advance(&mut h, &j, &Vec::new(), &Vec::new()) {
            Ok(Progress::Call(f, a)) => {
                assert_eq!(f, lam);
                assert_eq!(args_of(a), vec![char_of(97)]);
            }
            other => panic!("{:?}", other),
        },
        other => panic!("{:?}", other),
    }
}

#[test]
fn endless_pipelines_raise() {
    let mut h = Host::new();
    let gen = naturals(&mut h);
    let message = "java.lang.IllegalStateException: sequence produced more than 1000000 elements without a `take`, `takeWhile` or a step returning null";
    assert_eq!(pulled(&mut h, gen, None), Err(message.to_string()));
    // A filter that lets nothing more through does not hang either.
    let small = staged(&mut h, gen, "filter", SMALL);
    assert_eq!(pulled(&mut h, small, Some(2)), Ok(ints(&[1, 2])));
    assert_eq!(pulled(&mut h, small, Some(3)), Err(message.to_string()));
}
