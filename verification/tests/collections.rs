use kotlinrs::objects::{component, index_get, index_set, obj_method};
use kotlinrs::operators::{contains_value, map_new, operator_apply, operator_kind, set_new};
use kotlinrs::order::{
    bucket_of, hash_order, map_capacity, reorder, table_size, CollSpec, COLL_COPY, COLL_DEFAULT_CAP,
    COLL_HASH, COLL_SORTED,
};
use kotlinrs::range::{RangeForm, RangeObj};
use kotlinrs::receiver::{
    array_desc, as_iterable, groups_of, iter_at, iter_len, join_to_string, seq_kind_of, windows_of,
    SeqKind,
};
use kotlinrs::reply::{settle, Reply};
use kotlinrs::value::{char_of, HeapObj};
use kotlinrs::walk::{Stop, Turn};
use std::rc::Rc;
use kotlinrs::display::kotlin_string;
use kotlinrs::format::{format_string, Formatted};
use kotlinrs::host::Host;
use kotlinrs::members::{finish, kt_method};
use kotlinrs::reply::{Answer, FloatOp, FloatTask, NumberText};
use kotlinrs::value::{Double, Value};

fn double(x: f64) -> Double {
    if x == 0.0 || !x.is_finite() {
        return Double { bits: x.to_bits(), digits: "0".to_string(), exp10: 0 };
    }
    let s = format!("{:e}", x.abs());
    match s.split_once('e') {
        Some((m, e)) => Double {
            bits: x.to_bits(),
            digits: m.replace('.', ""),
            exp10: e.parse().unwrap_or(0),
        },
        None => panic!("{}", s),
    }
}

fn num(h: &mut Host, x: f64) -> Value {
    h.double_value(double(x))
}

fn text(h: &mut Host, s: &str) -> Value {
    h.text_value(s.to_string())
}

fn float_of(h: &Host, v: Value) -> f64 {
    f64::from_bits(h.to_double(v))
}

fn computed(h: &mut Host, t: FloatTask) -> Value {
    let a = float_of(h, t.a);
    let b = float_of(h, t.b);
    let r = match t.op {
        FloatOp::Add => a + b,
        FloatOp::Sub => a - b,
        FloatOp::Mul => a * b,
        FloatOp::Div => a / b,
        FloatOp::Rem => a % b,
        FloatOp::Pow => a.powf(b),
        FloatOp::Neg => -a,
        FloatOp::Abs => a.abs(),
        FloatOp::Sqrt => a.sqrt(),
        FloatOp::Floor => a.floor(),
        FloatOp::Ceil => a.ceil(),
        FloatOp::Round => a.round_ties_even(),
        FloatOp::Convert => a,
        FloatOp::Lt => return Value::Bool(a < b),
        FloatOp::Gt => return Value::Bool(a > b),
        FloatOp::Le => return Value::Bool(a <= b),
        FloatOp::Ge => return Value::Bool(a >= b),
        FloatOp::Eq => return Value::Bool(a == b),
        FloatOp::Ne => return Value::Bool(a != b),
    };
    num(h, r)
}

fn formatted(h: &Host, fmt: &str, args: &Vec<Value>) -> Result<String, String> {
    let mut log: Vec<String> = Vec::new();
    loop {
        match format_string(h, fmt, args, &log) {
            Formatted::Done(s) => return Ok(s),
            Formatted::Fault(m) => return Err(m),
            Formatted::Render(v, prec) => {
                log.push(format!("{:.*e}", prec as usize, float_of(h, v)));
            }
        }
    }
}

fn answered(h: &mut Host, a: Answer) -> Result<Value, String> {
    match a {
        Answer::Value(v) => Ok(v),
        Answer::Fault(m) => Err(m),
        Answer::Compute(t) => Ok(computed(h, t)),
        Answer::Sum(vs) => {
            let total = vs.iter().map(|v| float_of(h, *v)).sum::<f64>();
            Ok(num(h, total))
        }
        Answer::Average(vs) => {
            let total = vs.iter().map(|v| float_of(h, *v)).sum::<f64>();
            let n = vs.len() as f64;
            Ok(num(h, total / n))
        }
        Answer::Read(NumberText::Decimal { negative, body }) => {
            let x: f64 = body.parse().unwrap_or(f64::NAN);
            Ok(num(h, if negative { -x } else { x }))
        }
        Answer::Read(NumberText::Infinity { negative }) => {
            Ok(num(h, if negative { f64::NEG_INFINITY } else { f64::INFINITY }))
        }
        Answer::Read(NumberText::NotANumber) => Ok(num(h, f64::NAN)),
        Answer::Format(fmt, args) => match formatted(h, fmt.as_str(), &args) {
            Ok(s) => Ok(h.text_value(s)),
            Err(m) => Err(m),
        },
        other => panic!("{:?}", other),
    }
}

fn call(h: &mut Host, recv: Value, name: &str, args: Vec<Value>) -> Result<Value, String> {
    let reply = match kt_method(h, recv, name, &args, &Vec::new()) {
        Ok(r) => r,
        Err(stop) => panic!("{:?}", stop),
    };
    let a = finish(h, recv, name, reply);
    answered(h, a)
}

fn said(h: &mut Host, recv: Value, name: &str, args: Vec<Value>) -> String {
    match call(h, recv, name, args) {
        Ok(v) => kotlin_string(h, v),
        Err(m) => format!("! {}", m),
    }
}

fn ints(ns: &[i64]) -> Vec<Value> {
    ns.iter().map(|n| Value::Int(*n)).collect()
}

fn list(h: &mut Host, ns: &[i64]) -> Value {
    h.allocate(HeapObj::List(ints(ns)))
}

fn set(h: &mut Host, ns: &[i64]) -> Value {
    h.allocate(HeapObj::SetObj(ints(ns)))
}

fn pair(h: &mut Host, k: Value, v: Value) -> Value {
    h.allocate(HeapObj::Pair(k, v))
}

fn map_of(h: &mut Host, es: &[(i64, i64)]) -> Value {
    h.allocate(HeapObj::MapObj(es.iter().map(|e| (Value::Int(e.0), Value::Int(e.1))).collect()))
}

fn on_list(ns: &[i64], name: &str, args: &[i64]) -> String {
    let mut h = Host::new();
    let l = list(&mut h, ns);
    said(&mut h, l, name, ints(args))
}

fn taken(h: &mut Host, r: Result<Reply, Stop>) -> String {
    match r {
        Ok(r) => {
            let a = settle(h, r);
            match answered(h, a) {
                Ok(v) => kotlin_string(h, v),
                Err(m) => format!("! {}", m),
            }
        }
        Err(s) => panic!("{:?}", s),
    }
}

#[test]
fn list_members() {
    assert_eq!(on_list(&[1, 2, 3], "size", &[]), "3");
    assert_eq!(on_list(&[1, 2, 3], "get", &[1]), "2");
    assert_eq!(on_list(&[1, 2, 3], "contains", &[2]), "true");
    assert_eq!(on_list(&[1, 2, 3], "indexOf", &[3]), "2");
    assert_eq!(on_list(&[1, 2, 3], "sum", &[]), "6");
    assert_eq!(on_list(&[1, 2, 3], "average", &[]), "2.0");
    assert_eq!(on_list(&[1, 2, 3], "count", &[]), "3");
    assert_eq!(on_list(&[1, 2, 3], "first", &[]), "1");
    assert_eq!(on_list(&[1, 2, 3], "last", &[]), "3");
    assert_eq!(on_list(&[3, 1, 2], "max", &[]), "3");
    assert_eq!(on_list(&[3, 1, 2], "min", &[]), "1");
    assert_eq!(on_list(&[3, 1, 2], "sorted", &[]), "[1, 2, 3]");
    assert_eq!(on_list(&[3, 1, 2], "sortedDescending", &[]), "[3, 2, 1]");
    assert_eq!(on_list(&[3, 1, 3], "distinct", &[]), "[3, 1]");
    assert_eq!(on_list(&[3, 1, 3], "toSet", &[]), "[3, 1]");
    assert_eq!(on_list(&[1, 2, 3], "take", &[99]), "[1, 2, 3]");
    assert_eq!(on_list(&[1, 2, 3], "drop", &[1]), "[2, 3]");
    assert_eq!(on_list(&[1, 2, 3], "takeLast", &[2]), "[2, 3]");
    assert_eq!(on_list(&[1, 2, 3], "dropLast", &[2]), "[1]");
    assert_eq!(on_list(&[1, 2, 3], "reversed", &[]), "[3, 2, 1]");
    assert_eq!(on_list(&[1, 2, 3], "subList", &[1, 3]), "[2, 3]");
    assert_eq!(on_list(&[1, 2, 3], "zipWithNext", &[]), "[(1, 2), (2, 3)]");
    assert_eq!(on_list(&[1, 2, 3], "isEmpty", &[]), "false");
    assert_eq!(on_list(&[1, 2, 3], "hashCode", &[]), "30817");
}

#[test]
fn empty_lists_answer_null_or_throw() {
    assert_eq!(on_list(&[], "maxOrNull", &[]), "null");
    assert_eq!(on_list(&[], "firstOrNull", &[]), "null");
    assert_eq!(on_list(&[1], "getOrNull", &[3]), "null");
    assert_eq!(on_list(&[1], "elementAtOrNull", &[0]), "1");
    assert_eq!(on_list(&[], "max", &[]), "! java.util.NoSuchElementException");
    assert_eq!(on_list(&[], "first", &[]), "! java.util.NoSuchElementException: List is empty.");
    assert_eq!(
        on_list(&[1], "get", &[4]),
        "! java.lang.IndexOutOfBoundsException: Index 4 out of bounds for length 1"
    );
}

#[test]
fn or_null_members_answer_what_the_plain_ones_do() {
    let pairs = [
        ("first", "firstOrNull"),
        ("last", "lastOrNull"),
        ("max", "maxOrNull"),
        ("min", "minOrNull"),
        ("single", "singleOrNull"),
        ("get", "getOrNull"),
        ("elementAt", "elementAtOrNull"),
    ];
    for items in [&[][..], &[4][..], &[4, 2][..]] {
        for (plain, or_null) in pairs {
            let args: &[i64] = if plain == "get" || plain == "elementAt" { &[1] } else { &[] };
            let answer = on_list(items, plain, args);
            let want = if answer.starts_with('!') { "null".to_string() } else { answer };
            assert_eq!(on_list(items, or_null, args), want, "{} of {:?}", or_null, items);
        }
    }
}

#[test]
fn windows_and_chunks() {
    assert_eq!(on_list(&[1, 2, 3, 4, 5], "chunked", &[2]), "[[1, 2], [3, 4], [5]]");
    assert_eq!(on_list(&[1, 2, 3, 4], "windowed", &[3]), "[[1, 2, 3], [2, 3, 4]]");
    assert_eq!(on_list(&[1, 2, 3, 4], "windowed", &[2, 2]), "[[1, 2], [3, 4]]");
    assert_eq!(
        on_list(&[1], "chunked", &[0]),
        "! java.lang.IllegalArgumentException: size 0 must be greater than zero."
    );
    let items = ints(&[1, 2, 3, 4, 5, 6, 7]);
    let chunks = windows_of(&items, 3, 3, true);
    assert_eq!(chunks.concat(), items);
    for w in windows_of(&items, 3, 2, false) {
        assert_eq!(w.len(), 3);
    }
    let h = Host::new();
    match groups_of(&h, &items, "chunked", &ints(&[4])) {
        Ok(gs) => assert_eq!(gs.len(), 2),
        Err(m) => panic!("{}", m),
    }
}

#[test]
fn joining() {
    let mut h = Host::new();
    let l = list(&mut h, &[1, 2, 3]);
    let sep = text(&mut h, "-");
    let open = text(&mut h, "<");
    let close = text(&mut h, ">");
    assert_eq!(said(&mut h, l, "joinToString", vec![]), "1, 2, 3");
    assert_eq!(said(&mut h, l, "joinToString", vec![sep, open, close]), "<1-2-3>");
    assert_eq!(said(&mut h, l, "joinToString", vec![sep, open, close, Value::Int(2)]), "<1-2-...>");
    let bodies = vec!["a".to_string(), "b".to_string()];
    assert_eq!(join_to_string(&h, &bodies, 2, &vec![sep]), "a-b");
}

#[test]
fn mutable_lists_change_in_place() {
    let mut h = Host::new();
    let l = list(&mut h, &[1, 2]);
    assert_eq!(said(&mut h, l, "add", ints(&[3])), "true");
    assert_eq!(said(&mut h, l, "remove", ints(&[1])), "true");
    assert_eq!(kotlin_string(&h, l), "[2, 3]");
    assert_eq!(said(&mut h, l, "removeAt", ints(&[0])), "2");
    let more = list(&mut h, &[7, 8]);
    assert_eq!(said(&mut h, l, "addAll", vec![more]), "true");
    assert_eq!(kotlin_string(&h, l), "[3, 7, 8]");
    assert_eq!(said(&mut h, l, "retainAll", vec![more]), "true");
    assert_eq!(said(&mut h, l, "retainAll", vec![more]), "false");
    assert_eq!(said(&mut h, l, "removeAll", vec![more]), "true");
    assert_eq!(kotlin_string(&h, l), "[]");
}

#[test]
fn a_set_keeps_one_of_each() {
    let mut h = Host::new();
    let spec = CollSpec { order: 0, copy: false, default_cap: false };
    let s = match set_new(&mut h, spec, &ints(&[3, 1, 2, 3]), &Vec::new()) {
        Ok(v) => v,
        Err(e) => panic!("{:?}", e),
    };
    assert_eq!(kotlin_string(&h, s), "[3, 1, 2]");
    assert_eq!(said(&mut h, s, "add", ints(&[9])), "true");
    assert_eq!(said(&mut h, s, "add", ints(&[9])), "false");
    assert_eq!(kotlin_string(&h, s), "[3, 1, 2, 9]");
    let t = set(&mut h, &[1, 9]);
    assert_eq!(said(&mut h, s, "intersect", vec![t]), "[1, 9]");
    assert_eq!(said(&mut h, s, "subtract", vec![t]), "[3, 2]");
    assert_eq!(said(&mut h, t, "union", vec![s]), "[1, 9, 3, 2]");
    assert_eq!(said(&mut h, s, "containsAll", vec![t]), "true");
}

#[test]
fn maps_look_up_and_put() {
    let mut h = Host::new();
    let m = map_of(&mut h, &[(1, 10), (2, 20)]);
    assert_eq!(said(&mut h, m, "size", vec![]), "2");
    assert_eq!(said(&mut h, m, "get", ints(&[2])), "20");
    assert_eq!(said(&mut h, m, "get", ints(&[3])), "null");
    assert_eq!(said(&mut h, m, "containsKey", ints(&[1])), "true");
    assert_eq!(said(&mut h, m, "put", ints(&[1, 11])), "10");
    assert_eq!(said(&mut h, m, "put", ints(&[3, 30])), "null");
    assert_eq!(kotlin_string(&h, m), "{1=11, 2=20, 3=30}");
    assert_eq!(said(&mut h, m, "keys", vec![]), "[1, 2, 3]");
    assert_eq!(said(&mut h, m, "values", vec![]), "[11, 20, 30]");
    assert_eq!(said(&mut h, m, "entries", vec![]), "[1=11, 2=20, 3=30]");
    assert_eq!(said(&mut h, m, "toList", vec![]), "[(1, 11), (2, 20), (3, 30)]");
    assert_eq!(said(&mut h, m, "remove", ints(&[2])), "true");
    assert_eq!(said(&mut h, m, "remove", ints(&[2])), "false");
    assert_eq!(kotlin_string(&h, m), "{1=11, 3=30}");
}

#[test]
fn reading_a_map_changes_nothing() {
    let mut h = Host::new();
    let m = map_of(&mut h, &[(1, 10), (2, 20)]);
    for name in ["size", "keys", "values", "entries", "isEmpty"] {
        match kt_method(&h, m, name, &Vec::new(), &Vec::new()) {
            Ok(Reply::Update(..)) => panic!("{}", name),
            Ok(_) => {}
            Err(s) => panic!("{:?}", s),
        }
    }
    assert_eq!(kotlin_string(&h, m), "{1=10, 2=20}");
}

#[test]
fn a_hash_map_walks_its_table() {
    let mut h = Host::new();
    let mut pairs: Vec<Value> = Vec::new();
    for (k, v) in [("banana", 1), ("apple", 2), ("cherry", 3), ("zebra", 4)] {
        let key = text(&mut h, k);
        let p = pair(&mut h, key, Value::Int(v));
        pairs.push(p);
    }
    let spec = CollSpec { order: COLL_HASH, copy: false, default_cap: false };
    match map_new(&mut h, spec, &pairs, &Vec::new()) {
        Ok(m) => {
            assert_eq!(reorder(&mut h, m, &Vec::new()), Ok(()));
            assert_eq!(kotlin_string(&h, m), "{banana=1, zebra=4, apple=2, cherry=3}");
        }
        Err(e) => panic!("{:?}", e),
    }
}

#[test]
fn a_sorted_set_stays_sorted() {
    let mut h = Host::new();
    let spec = CollSpec { order: COLL_SORTED, copy: false, default_cap: false };
    match set_new(&mut h, spec, &ints(&[3, 1, 2]), &Vec::new()) {
        Ok(s) => {
            assert_eq!(reorder(&mut h, s, &Vec::new()), Ok(()));
            assert_eq!(kotlin_string(&h, s), "[1, 2, 3]");
            assert_eq!(said(&mut h, s, "add", ints(&[0])), "true");
            assert_eq!(reorder(&mut h, s, &Vec::new()), Ok(()));
            assert_eq!(kotlin_string(&h, s), "[0, 1, 2, 3]");
        }
        Err(e) => panic!("{:?}", e),
    }
}

#[test]
fn repeated_keys_collapse() {
    let mut h = Host::new();
    let data = |h: &mut Host, n: i64| {
        h.allocate(HeapObj::Instance {
            class: "D".to_string(),
            is_data: true,
            fields: vec![("a".to_string(), Value::Int(n))],
            data_from: 0,
            data_len: 1,
        })
    };
    let (a, b) = (data(&mut h, 1), data(&mut h, 1));
    let p = pair(&mut h, a, Value::Int(1));
    let q = pair(&mut h, b, Value::Int(2));
    let spec = CollSpec { order: 0, copy: false, default_cap: false };
    match map_new(&mut h, spec, &vec![p, q], &Vec::new()) {
        Ok(m) => assert_eq!(kotlin_string(&h, m), "{D(a=1)=2}"),
        Err(e) => panic!("{:?}", e),
    }
}

#[test]
fn table_sizes_are_powers_of_two() {
    assert_eq!(table_size(4, 16), 16);
    assert_eq!(table_size(13, 16), 32);
    assert_eq!(table_size(0, 1), 1);
    assert_eq!(map_capacity(4), 6);
    assert_eq!(bucket_of(65536, 16), 1);
    let mut h = Host::new();
    let keys = vec![Value::Int(17), Value::Int(1), Value::Int(16)];
    assert_eq!(hash_order(&h, &keys, 16, &Vec::new()), Ok(vec![2, 0, 1]));
    let m = map_of(&mut h, &[(2, 0), (1, 0)]);
    assert_eq!(reorder(&mut h, m, &Vec::new()), Ok(()));
    assert_eq!(kotlin_string(&h, m), "{2=0, 1=0}");
}

#[test]
fn membership() {
    let mut h = Host::new();
    let l = list(&mut h, &[1, 2]);
    let m = map_of(&mut h, &[(5, 6)]);
    let r = h.allocate(HeapObj::Range(RangeObj::new(1, 9, RangeForm::Inclusive, false).stepped(2)));
    let s = text(&mut h, "banana");
    let nan = text(&mut h, "nan");
    let none = Vec::new();
    assert_eq!(contains_value(&h, l, Value::Int(2), &none), Ok(true));
    assert_eq!(contains_value(&h, l, Value::Int(3), &none), Ok(false));
    assert_eq!(contains_value(&h, m, Value::Int(5), &none), Ok(true));
    assert_eq!(contains_value(&h, m, Value::Int(6), &none), Ok(false));
    assert_eq!(contains_value(&h, r, Value::Int(7), &none), Ok(true));
    assert_eq!(contains_value(&h, r, Value::Int(8), &none), Ok(false));
    assert_eq!(contains_value(&h, s, nan, &none), Ok(true));
}

fn operate(h: &mut Host, a: Value, name: &str, b: Value) -> String {
    let r = operator_apply(h, a, name, b, &Vec::new());
    taken(h, r)
}

#[test]
fn operators_on_collections() {
    let mut h = Host::new();
    let l = list(&mut h, &[1, 2, 3]);
    let m = list(&mut h, &[9, 2]);
    assert_eq!(operate(&mut h, l, "minus", Value::Int(2)), "[1, 3]");
    assert_eq!(operate(&mut h, l, "plus", Value::Int(4)), "[1, 2, 3, 4]");
    assert_eq!(operate(&mut h, l, "plus", m), "[1, 2, 3, 9, 2]");
    assert_eq!(operate(&mut h, l, "minus", m), "[1, 3]");
    assert_eq!(kotlin_string(&h, l), "[1, 2, 3]");
    let s = set(&mut h, &[1, 2]);
    assert_eq!(operate(&mut h, s, "plus", Value::Int(2)), "[1, 2]");
    let map = map_of(&mut h, &[(1, 1)]);
    let p = pair(&mut h, Value::Int(2), Value::Int(2));
    assert_eq!(operate(&mut h, map, "plus", p), "{1=1, 2=2}");
    assert_eq!(operate(&mut h, map, "minus", Value::Int(1)), "{}");
    assert_eq!(operator_kind("plusAssign"), Some((true, true)));
    assert_eq!(operator_kind("times"), None);
    assert!(operate(&mut h, l, "times", m).starts_with("! "));
    assert_eq!(operate(&mut h, l, "plusAssign", Value::Int(7)), "null");
    assert_eq!(kotlin_string(&h, l), "[1, 2, 3, 7]");
}

#[test]
fn a_store_is_read_back() {
    let mut h = Host::new();
    let l = list(&mut h, &[1, 2, 3]);
    let m = map_of(&mut h, &[(1, 1)]);
    let none = Vec::new();
    let r = index_set(&h, l, Value::Int(1), Value::Int(20), &none);
    taken(&mut h, r);
    let r = index_get(&h, l, Value::Int(1), &none);
    assert_eq!(taken(&mut h, r), "20");
    let r = index_set(&h, m, Value::Int(5), Value::Int(50), &none);
    taken(&mut h, r);
    let r = index_get(&h, m, Value::Int(5), &none);
    assert_eq!(taken(&mut h, r), "50");
    let r = index_get(&h, l, Value::Int(9), &none);
    assert_eq!(
        taken(&mut h, r),
        "! java.lang.IndexOutOfBoundsException: Index 9 out of bounds for length 3"
    );
}

#[test]
fn components_destructure() {
    let mut h = Host::new();
    let t = h.allocate(HeapObj::Triple(Value::Int(1), Value::Int(2), Value::Int(3)));
    let l = list(&mut h, &[7, 8]);
    for (v, n, want) in [(t, 3, "3"), (t, 1, "1"), (l, 2, "8")] {
        let r = component(&h, v, n);
        assert_eq!(taken(&mut h, Ok(r)), want);
    }
    let r = component(&h, t, 4);
    assert!(taken(&mut h, Ok(r)).starts_with("! "));
    assert_eq!(said(&mut h, t, "component2", vec![]), "2");
    assert_eq!(said(&mut h, t, "third", vec![]), "3");
}

#[test]
fn entries_are_not_pairs() {
    let mut h = Host::new();
    let e = h.allocate(HeapObj::Entry(Value::Int(1), Value::Int(2)));
    let p = pair(&mut h, Value::Int(1), Value::Int(2));
    assert_eq!(said(&mut h, e, "key", vec![]), "1");
    assert_eq!(said(&mut h, e, "value", vec![]), "2");
    assert_eq!(said(&mut h, p, "first", vec![]), "1");
    assert_eq!(said(&mut h, e, "equals", vec![p]), "false");
    assert_eq!(said(&mut h, e, "hashCode", vec![]), "3");
    assert_eq!(said(&mut h, p, "hashCode", vec![]), "33");
}

#[test]
fn receivers_are_walked() {
    let mut h = Host::new();
    let l = list(&mut h, &[4, 5]);
    let s = text(&mut h, "ab");
    let m = map_of(&mut h, &[(1, 2)]);
    assert_eq!(seq_kind_of(&h, l), SeqKind::List);
    assert_eq!(seq_kind_of(&h, m), SeqKind::Hashed);
    assert_eq!(as_iterable(&h, l), Some(ints(&[4, 5])));
    assert_eq!(as_iterable(&h, Value::Int(1)), None);
    assert_eq!(iter_len(&h, s), Some(2));
    assert_eq!(iter_len(&h, Value::Int(1)), None);
    let r = iter_at(&h, s, 1);
    assert_eq!(taken(&mut h, Ok(r)), "b");
    assert_eq!(array_desc(&vec![Value::Int(1)]), "[Ljava.lang.Integer;");
    assert_eq!(array_desc(&vec![char_of(97), Value::Int(1)]), "[Ljava.lang.Object;");
}

#[test]
fn arrays_keep_jvm_semantics() {
    let mut h = Host::new();
    let a = h.allocate(HeapObj::Array { items: ints(&[1, 2]), desc: "[I".to_string() });
    assert_eq!(said(&mut h, a, "size", vec![]), "2");
    assert_eq!(said(&mut h, a, "sum", vec![]), "3");
    assert!(kotlin_string(&h, a).starts_with("[I@"));
    let r = obj_method(&h, a, "nope", &Vec::new(), &Vec::new());
    assert!(taken(&mut h, r).starts_with("! unresolved reference: nope"));
}

#[test]
fn ranges_share_the_sequence_members() {
    let mut h = Host::new();
    let r = h.allocate(HeapObj::Range(RangeObj::new(1, 3, RangeForm::Inclusive, false)));
    assert_eq!(said(&mut h, r, "sum", vec![]), "6");
    assert_eq!(said(&mut h, r, "toList", vec![]), "[1, 2, 3]");
    assert_eq!(said(&mut h, r, "reversed", vec![]), "3 downTo 1 step 1");
    assert_eq!(said(&mut h, r, "first", vec![]), "1");
    assert_eq!(said(&mut h, r, "contains", ints(&[2])), "true");
}

#[test]
fn flattening_and_zipping() {
    let mut h = Host::new();
    let a = list(&mut h, &[1, 2]);
    let b = list(&mut h, &[3]);
    let ab = h.allocate(HeapObj::List(vec![a, b]));
    assert_eq!(said(&mut h, ab, "flatten", vec![]), "[1, 2, 3]");
    assert_eq!(said(&mut h, a, "zip", vec![b]), "[(1, 3)]");
    let p = pair(&mut h, Value::Int(1), Value::Int(2));
    let ps = h.allocate(HeapObj::List(vec![p, p]));
    assert_eq!(said(&mut h, ps, "unzip", vec![]), "([1, 1], [2, 2])");
    let idx = list(&mut h, &[1, 0]);
    assert_eq!(said(&mut h, a, "slice", vec![idx]), "[2, 1]");
    let nulls = h.allocate(HeapObj::List(vec![Value::Undef, Value::Int(1)]));
    assert_eq!(said(&mut h, nulls, "filterNotNull", vec![]), "[1]");
}

#[test]
fn a_sequence_view_stays_one() {
    let mut h = Host::new();
    let l = list(&mut h, &[1, 2, 3]);
    let s = match call(&mut h, l, "asSequence", vec![]) {
        Ok(v) => v,
        Err(m) => panic!("{}", m),
    };
    assert!(h.is_sequence_view(s));
    match call(&mut h, s, "take", ints(&[2])) {
        Ok(v) => assert!(h.is_sequence_view(v)),
        Err(m) => panic!("{}", m),
    }
    match call(&mut h, s, "toList", vec![]) {
        Ok(v) => assert!(!h.is_sequence_view(v)),
        Err(m) => panic!("{}", m),
    }
}

#[test]
fn members_of_nothing_are_unresolved() {
    let mut h = Host::new();
    let l = list(&mut h, &[1]);
    assert_eq!(said(&mut h, l, "nope", vec![]), "! unresolved reference: nope on List");
}

#[test]
fn bulk_changes_are_answered() {
    let mut h = Host::new();
    let l = list(&mut h, &[1, 2]);
    let none = list(&mut h, &[]);
    let s = set(&mut h, &[1, 2]);
    assert_eq!(said(&mut h, l, "addAll", vec![none]), "false");
    assert_eq!(said(&mut h, s, "addAll", vec![l]), "false");
    assert_eq!(said(&mut h, s, "removeAll", vec![none]), "false");
    assert_eq!(said(&mut h, s, "retainAll", vec![none]), "true");
    assert_eq!(kotlin_string(&h, s), "[]");
}

/// The one turn of a walk that asked in the state `h`.
fn turns(h: &Host, answer: Option<Value>) -> Vec<Turn> {
    vec![Turn { host: Rc::new(h.clone()), answer }]
}

#[test]
fn members_that_change_the_receiver_meanwhile() {
    let mut h = Host::new();
    h.equals_subs.insert("C", 7);
    let c = |h: &mut Host| {
        h.allocate(HeapObj::Instance {
            class: "C".to_string(),
            is_data: false,
            fields: Vec::new(),
            data_from: 0,
            data_len: 0,
        })
    };
    let (a, b) = (c(&mut h), c(&mut h));
    let l = h.allocate(HeapObj::List(vec![a]));
    let at = match l {
        Value::Obj(id) => id,
        other => panic!("{:?}", other),
    };
    // `remove` looks among the elements from before and removes from those of now.
    let before = turns(&h, Some(Value::Bool(true)));
    h.replace(at, HeapObj::List(vec![a, Value::Int(5)]));
    match obj_method(&h, l, "remove", &vec![b], &before) {
        Ok(Reply::Update(to, o, v)) => {
            assert_eq!((to, v), (l, Value::Bool(true)));
            assert_eq!(o, HeapObj::List(vec![Value::Int(5)]));
        }
        other => panic!("{:?}", other),
    }
    // An element that is gone by then is not there.
    h.replace(at, HeapObj::List(vec![]));
    assert_eq!(
        obj_method(&h, l, "remove", &vec![b], &before),
        Ok(Reply::Value(Value::Bool(false)))
    );
}

#[test]
fn a_set_that_shrinks_while_it_is_ordered_stays_as_it_is() {
    let mut h = Host::new();
    h.hashcode_subs.insert("C", 9);
    let c = h.allocate(HeapObj::Instance {
        class: "C".to_string(),
        is_data: false,
        fields: Vec::new(),
        data_from: 0,
        data_len: 0,
    });
    let spec = CollSpec { order: COLL_HASH, copy: false, default_cap: true };
    let s = match set_new(&mut h, spec, &vec![Value::Int(3), Value::Int(1)], &Vec::new()) {
        Ok(s) => s,
        Err(e) => panic!("{:?}", e),
    };
    let at = match s {
        Value::Obj(id) => id,
        other => panic!("{:?}", other),
    };
    h.replace(at, HeapObj::SetObj(vec![Value::Int(3), c]));
    assert!(matches!(reorder(&mut h, s, &Vec::new()), Err(Stop::Ask(_))));
    let before = turns(&h, Some(Value::Int(2)));
    // The keys are ranked as they were: the instance first, by its hash of 2.
    assert_eq!(reorder(&mut h, s, &before), Ok(()));
    assert_eq!(h.obj(s), Some(&HeapObj::SetObj(vec![c, Value::Int(3)])));
    h.replace(at, HeapObj::SetObj(vec![c]));
    assert_eq!(reorder(&mut h, s, &before), Ok(()));
    assert_eq!(h.obj(s), Some(&HeapObj::SetObj(vec![c])));
}

#[test]
fn a_map_gives_back_what_was_stored() {
    let mut h = Host::new();
    let m = h.allocate(HeapObj::MapObj(vec![(Value::Int(1), Value::Int(10))]));
    for (k, v) in [(1, 11), (2, 20), (2, 21)] {
        let (k, v) = (Value::Int(k), Value::Int(v));
        match index_set(&h, m, k, v, &Vec::new()) {
            Ok(r) => {
                settle(&mut h, r);
            }
            Err(e) => panic!("{:?}", e),
        }
        assert_eq!(index_get(&h, m, k, &Vec::new()), Ok(Reply::Value(v)));
    }
    assert_eq!(kotlin_string(&h, m), "{1=11, 2=21}");
}

#[test]
fn stores_into_arrays_and_builders_are_read_back() {
    let mut h = Host::new();
    let a = h.allocate(HeapObj::Array { items: vec![Value::Int(1)], desc: "[I".to_string() });
    let b = h.allocate(HeapObj::Builder { units: vec![97, 98], cap: 16 });
    for (to, i, v) in [(a, 0, Value::Int(7)), (b, 1, char_of(122))] {
        match index_set(&h, to, Value::Int(i), v, &Vec::new()) {
            Ok(r) => {
                settle(&mut h, r);
            }
            Err(e) => panic!("{:?}", e),
        }
        assert_eq!(index_get(&h, to, Value::Int(i), &Vec::new()), Ok(Reply::Value(v)));
    }
    assert_eq!(kotlin_string(&h, b), "az");
}

#[test]
fn a_sized_table_does_not_grow() {
    for n in [0, 1, 2, 3, 12, 13, 100, 1_000_000] {
        let c = map_capacity(n);
        assert!(c > n);
        assert_eq!(table_size(n, c), c.next_power_of_two() as u128);
    }
}

#[test]
fn hash_containers_reach_equals_only_behind_the_hash() {
    let mut h = Host::new();
    h.equals_subs.insert("C", 7);
    let c = |h: &mut Host| {
        h.allocate(HeapObj::Instance {
            class: "C".to_string(),
            is_data: false,
            fields: Vec::new(),
            data_from: 0,
            data_len: 0,
        })
    };
    let (a, b) = (c(&mut h), c(&mut h));
    let l = h.allocate(HeapObj::List(vec![a]));
    // A list asks `equals` alone.
    match contains_value(&h, l, b, &Vec::new()) {
        Err(Stop::Ask(call)) => assert_eq!(call.sub, 7),
        other => panic!("{:?}", other),
    }
    assert_eq!(contains_value(&h, l, b, &turns(&h, Some(Value::Bool(true)))), Ok(true));
    // A set keeps both, for their hashes differ, and an object only once.
    let spec = CollSpec { order: 0, copy: false, default_cap: false };
    match set_new(&mut h, spec, &vec![a, b, a], &Vec::new()) {
        Ok(s) => assert_eq!(h.obj(s), Some(&HeapObj::SetObj(vec![a, b]))),
        Err(e) => panic!("{:?}", e),
    }
}

#[test]
fn collection_codes_are_read() {
    let s = CollSpec::decode(i64::from(COLL_HASH | COLL_COPY));
    assert_eq!((s.order, s.copy, s.default_cap), (COLL_HASH, true, false));
    let s = CollSpec::decode(i64::from(COLL_SORTED | COLL_DEFAULT_CAP));
    assert_eq!((s.order, s.copy, s.default_cap), (COLL_SORTED, false, true));
}

#[test]
fn a_hash_set_copies_its_argument() {
    let mut h = Host::new();
    let l = list(&mut h, &[17, 1, 16]);
    let spec = CollSpec { order: COLL_HASH, copy: true, default_cap: false };
    match set_new(&mut h, spec, &vec![l], &Vec::new()) {
        Ok(s) => {
            assert_eq!(reorder(&mut h, s, &Vec::new()), Ok(()));
            assert_eq!(kotlin_string(&h, s), "[16, 17, 1]");
        }
        Err(e) => panic!("{:?}", e),
    }
}
