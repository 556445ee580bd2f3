//! Members that go by equality ask the `equals` and `hashCode` a class declares.

use kotlinrs::calls::args_of;
use kotlinrs::host::Host;
use kotlinrs::jobs::{advance, count_each, note, start, Job, Progress};
use kotlinrs::members::{finish, kt_method};
use kotlinrs::objects::obj_method;
use kotlinrs::reply::{settle, Answer};
use kotlinrs::value::{HeapObj, Value};
use kotlinrs::walk::{Call, Stop, Turn};
use std::rc::Rc;

const EQUALS: u16 = 7;
const HASH_CODE: u16 = 9;

/// A state in which class `P` declares `equals`, and with it `hashCode` where
/// `hashed` says so. Both go by the last digit of `n`.
fn declared(hashed: bool) -> Host {
    let mut h = Host::new();
    h.equals_subs.insert("P", EQUALS);
    if hashed {
        h.hashcode_subs.insert("P", HASH_CODE);
    }
    h
}

fn p(h: &mut Host, n: i64) -> Value {
    h.allocate(HeapObj::Instance {
        class: "P".to_string(),
        is_data: false,
        fields: vec![("n".to_string(), Value::Int(n))],
        data_from: 0,
        data_len: 0,
    })
}

fn ps(h: &mut Host, ns: &[i64]) -> Vec<Value> {
    ns.iter().map(|n| p(h, *n)).collect()
}

fn list(h: &mut Host, ns: &[i64]) -> Value {
    let items = ps(h, ns);
    h.allocate(HeapObj::List(items))
}

fn set(h: &mut Host, ns: &[i64]) -> Value {
    let items = ps(h, ns);
    h.allocate(HeapObj::SetObj(items))
}

fn n_of(h: &Host, v: Value) -> i64 {
    match h.obj(v) {
        Some(HeapObj::Instance { fields, .. }) => match fields[0].1 {
            Value::Int(n) => n,
            other => panic!("{:?}", other),
        },
        other => panic!("{:?}", other),
    }
}

fn held(h: &Host, v: Value) -> Vec<i64> {
    match h.obj(v) {
        Some(HeapObj::List(items)) | Some(HeapObj::SetObj(items)) => {
            items.iter().map(|x| n_of(h, *x)).collect()
        }
        other => panic!("{:?}", other),
    }
}

fn entries(h: &Host, v: Value) -> Vec<(Value, Value)> {
    match h.obj(v) {
        Some(HeapObj::MapObj(es)) => es.clone(),
        other => panic!("{:?}", other),
    }
}

/// What a declared member of `P` answers.
fn run(h: &Host, c: &Call) -> Value {
    let n = n_of(h, c.recv);
    match (c.sub, c.other) {
        (EQUALS, Some(o)) => Value::Bool(n % 10 == n_of(h, o) % 10),
        (HASH_CODE, None) => Value::Int(n % 10),
        other => panic!("{:?}", other),
    }
}

/// Repeat a walk until it has every answer; also how many it asked for.
fn asked<T>(
    h: &mut Host,
    mut walk: impl FnMut(&mut Host, &Vec<Turn>) -> Result<T, Stop>,
) -> (T, usize) {
    let mut answers: Vec<Turn> = Vec::new();
    loop {
        match walk(h, &answers) {
            Ok(t) => return (t, answers.len()),
            Err(Stop::Ask(c)) => {
                let answer = Some(run(h, &c));
                answers.push(Turn { host: Rc::new(h.clone()), answer });
            }
            Err(stop) => panic!("{:?}", stop),
        }
    }
}

fn value_of(a: Answer) -> Value {
    match a {
        Answer::Value(v) => v,
        other => panic!("{:?}", other),
    }
}

fn call(h: &mut Host, recv: Value, name: &str, args: Vec<Value>) -> Value {
    let (reply, _) = asked(h, |h, log| kt_method(h, recv, name, &args, log));
    value_of(finish(h, recv, name, reply))
}

const SELF: u16 = 1;
const LAST_DIGIT: u16 = 2;
const TO_SELF: u16 = 3;

fn lambda(h: &mut Host, n: u16) -> Value {
    h.allocate(HeapObj::Closure { name_idx: n, params: 1, captures: Vec::new() })
}

fn run_body(h: &mut Host, f: Value, a: &Vec<Value>) -> Value {
    let body = match h.obj(f) {
        Some(HeapObj::Closure { name_idx, .. }) => *name_idx,
        other => panic!("{:?}", other),
    };
    match body {
        SELF => a[0],
        LAST_DIGIT => Value::Int(n_of(h, a[0]) % 10),
        TO_SELF => h.allocate(HeapObj::Pair(a[0], a[0])),
        n => panic!("{}", n),
    }
}

fn drive(h: &mut Host, first: Progress) -> Value {
    let mut progress = first;
    let mut job: Option<Job> = None;
    let mut results: Vec<Value> = Vec::new();
    loop {
        match progress {
            Progress::Done(r) => return value_of(settle(h, r)),
            Progress::Next(j) => {
                job = Some(j);
                results.clear();
            }
            Progress::Call(f, a) => {
                let v = run_body(h, f, &args_of(a));
                match &mut job {
                    Some(j) => asked(h, |h, log| note(h, j, results.len(), v, log)),
                    None => panic!("a job starts first"),
                };
                results.push(v);
            }
        }
        progress = match &job {
            Some(j) => asked(h, |h, log| advance(h, j, &results, log)).0,
            None => panic!("a job starts first"),
        };
    }
}

fn hof(h: &mut Host, recv: Value, name: &str, extras: Vec<Value>, f: u16) -> Value {
    let lam = lambda(h, f);
    let first = start(h, name, recv, &extras, lam);
    drive(h, first)
}

#[test]
fn remove_all_asks_a_declared_equals() {
    let mut h = declared(false);
    let l = list(&mut h, &[1, 2, 13]);
    let c = list(&mut h, &[11, 3]);
    let (first, gone) = match (h.obj(l), h.obj(c)) {
        (Some(HeapObj::List(a)), Some(HeapObj::List(b))) => (a[0], b[0]),
        other => panic!("{:?}", other),
    };
    match obj_method(&h, l, "removeAll", &vec![c], &Vec::new()) {
        Err(Stop::Ask(ask)) => {
            assert_eq!((ask.sub, ask.recv, ask.other), (EQUALS, gone, Some(first)));
        }
        other => panic!("{:?}", other),
    }
    assert_eq!(call(&mut h, l, "removeAll", vec![c]), Value::Bool(true));
    assert_eq!(held(&h, l), vec![2]);
    assert_eq!(call(&mut h, l, "removeAll", vec![c]), Value::Bool(false));
    assert_eq!(held(&h, l), vec![2]);
}

#[test]
fn retain_all_asks_a_declared_equals() {
    let mut h = declared(false);
    let l = list(&mut h, &[1, 2, 13, 21]);
    let c = list(&mut h, &[11, 3]);
    assert_eq!(call(&mut h, l, "retainAll", vec![c]), Value::Bool(true));
    assert_eq!(held(&h, l), vec![1, 13, 21]);
    assert_eq!(call(&mut h, l, "retainAll", vec![c]), Value::Bool(false));
    assert_eq!(held(&h, l), vec![1, 13, 21]);
}

#[test]
fn a_set_argument_is_searched_behind_the_hash() {
    // Without `hashCode` the hashes differ, and `equals` is never reached.
    let mut h = declared(false);
    let l = list(&mut h, &[1, 2]);
    let c = set(&mut h, &[11, 12]);
    assert_eq!(call(&mut h, l, "removeAll", vec![c]), Value::Bool(false));
    assert_eq!(held(&h, l), vec![1, 2]);
    assert_eq!(call(&mut h, l, "retainAll", vec![c]), Value::Bool(true));
    assert_eq!(held(&h, l), Vec::<i64>::new());
    let mut h = declared(true);
    let l = list(&mut h, &[1, 2, 3]);
    let c = set(&mut h, &[11, 12]);
    assert_eq!(call(&mut h, l, "removeAll", vec![c]), Value::Bool(true));
    assert_eq!(held(&h, l), vec![3]);
}

#[test]
fn add_all_on_a_set_adds_only_what_is_new() {
    let mut h = declared(true);
    let s = set(&mut h, &[1]);
    let c = list(&mut h, &[11, 2, 12, 22, 3]);
    assert_eq!(call(&mut h, s, "addAll", vec![c]), Value::Bool(true));
    assert_eq!(held(&h, s), vec![1, 2, 3]);
    assert_eq!(call(&mut h, s, "addAll", vec![c]), Value::Bool(false));
    assert_eq!(held(&h, s), vec![1, 2, 3]);
    let l = list(&mut h, &[1]);
    assert_eq!(call(&mut h, l, "addAll", vec![c]), Value::Bool(true));
    assert_eq!(held(&h, l), vec![1, 11, 2, 12, 22, 3]);
}

#[test]
fn intersect_and_subtract_ask_a_declared_equals() {
    let mut h = declared(true);
    let l = list(&mut h, &[1, 2, 13, 21]);
    let c = list(&mut h, &[11, 3]);
    let both = call(&mut h, l, "intersect", vec![c]);
    assert_eq!(held(&h, both), vec![1, 13]);
    let rest = call(&mut h, l, "subtract", vec![c]);
    assert_eq!(held(&h, rest), vec![2]);
    assert_eq!(held(&h, l), vec![1, 2, 13, 21]);
}

#[test]
fn containers_called_equal_ask_for_their_elements() {
    let mut h = declared(false);
    let a = list(&mut h, &[1, 2]);
    let b = list(&mut h, &[11, 12]);
    let c = list(&mut h, &[11, 13]);
    assert_eq!(call(&mut h, a, "equals", vec![b]), Value::Bool(true));
    assert_eq!(call(&mut h, a, "equals", vec![c]), Value::Bool(false));
}

#[test]
fn grouped_keys_ask_for_hash_and_equals() {
    let mut h = declared(true);
    let l = list(&mut h, &[1, 12, 11, 2]);
    let m = hof(&mut h, l, "groupBy", vec![], SELF);
    let es = entries(&h, m);
    let groups: Vec<(i64, Vec<i64>)> =
        es.iter().map(|(k, v)| (n_of(&h, *k), held(&h, *v))).collect();
    assert_eq!(groups, vec![(1, vec![1, 11]), (12, vec![12, 2])]);
    // Equal objects of unequal hash are two keys.
    let mut h = declared(false);
    let l = list(&mut h, &[1, 11]);
    let m = hof(&mut h, l, "groupBy", vec![], SELF);
    assert_eq!(entries(&h, m).len(), 2);
}

#[test]
fn associated_keys_ask_for_hash_and_equals() {
    let mut h = declared(true);
    let l = list(&mut h, &[1, 12, 11]);
    for (name, body) in [("associateBy", SELF), ("associate", TO_SELF)] {
        let m = hof(&mut h, l, name, vec![], body);
        let es = entries(&h, m);
        let kept: Vec<(i64, i64)> = es.iter().map(|(k, v)| (n_of(&h, *k), n_of(&h, *v))).collect();
        assert_eq!(kept, vec![(1, 11), (12, 12)]);
    }
    let m = hof(&mut h, l, "associateWith", vec![], LAST_DIGIT);
    let es = entries(&h, m);
    let kept: Vec<(i64, Value)> = es.iter().map(|(k, v)| (n_of(&h, *k), *v)).collect();
    assert_eq!(kept, vec![(1, Value::Int(1)), (12, Value::Int(2))]);
}

#[test]
fn counted_keys_ask_for_hash_and_equals() {
    let mut h = declared(true);
    let items = ps(&mut h, &[1, 12, 11, 21]);
    let key = lambda(&mut h, SELF);
    let m = drive(&mut h, Progress::Next(count_each(items, key)));
    let es = entries(&h, m);
    let counts: Vec<(i64, Value)> = es.iter().map(|(k, v)| (n_of(&h, *k), *v)).collect();
    assert_eq!(counts, vec![(1, Value::Int(3)), (12, Value::Int(1))]);
}

#[test]
fn a_map_is_read_or_else_by_hash_and_equals() {
    let mut h = declared(true);
    let k = p(&mut h, 1);
    let m = h.allocate(HeapObj::MapObj(vec![(k, Value::Int(5))]));
    let there = p(&mut h, 11);
    let missing = p(&mut h, 12);
    assert_eq!(hof(&mut h, m, "getOrElse", vec![there], LAST_DIGIT), Value::Int(5));
    let other = hof(&mut h, m, "getOrElse", vec![missing], SELF);
    assert_eq!(other, missing);
}

#[test]
fn nothing_is_asked_where_nothing_is_declared() {
    let mut h = Host::new();
    let l = h.allocate(HeapObj::List(vec![Value::Int(1), Value::Int(2)]));
    let c = h.allocate(HeapObj::List(vec![Value::Int(2)]));
    let (reply, asks) = asked(&mut h, |h, log| kt_method(h, l, "removeAll", &vec![c], log));
    assert_eq!(asks, 0);
    assert_eq!(value_of(finish(&mut h, l, "removeAll", reply)), Value::Bool(true));
    assert!(matches!(h.obj(l), Some(HeapObj::List(items)) if *items == vec![Value::Int(1)]));
}
