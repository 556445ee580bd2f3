use kotlinrs::compare::{identical, int_hash, string_hash, value_eq, value_hash};
use kotlinrs::display::{display_vm, throwable_str};
use kotlinrs::double::{
    double_compare, double_equal, double_hash, double_to_int, format_double, format_fixed,
    java_fmax, java_fmin, java_math_round, numerically_equal,
};
use kotlinrs::host::{set_catchable, take_error, unwinding, ListImpl};
use kotlinrs::numbers::{floor_div, floor_mod, int_div, int_rem, math_call, num_hook, NumOp};
use kotlinrs::range::{difference_modulo, RangeForm, RangeObj};
use kotlinrs::reply::settle;
use kotlinrs::throwable::{throwable_ancestry, throwable_fqn, throwable_is_a};
use kotlinrs::types::{
    cast_failure, compare_text, obj_label, simple_name, throwable_matches, type_label,
    value_is_type, value_order,
};
use kotlinrs::value::{char_code, char_of, is_char, is_int, truthy, HeapObj};
use kotlinrs::walk::{equal_vm, hash_vm, Stop, Turn};
use std::rc::Rc;
use kotlinrs::display::kotlin_string;
use kotlinrs::format::{format_string, Formatted};
use kotlinrs::host::Host;
use kotlinrs::members::{finish, kt_method};
use kotlinrs::reply::{Answer, FloatOp, FloatTask, NumberText};
use kotlinrs::value::{Double, Value};

fn double(x: f64) -> Double {
    if x == 0.0 || !x.is_finite() {
        return Double { bits: x.to_bits(), digits: "0".to_string(), exp10: 0 };
    }
    let s = format!("{:e}", x.abs());
    match s.split_once('e') {
        Some((m, e)) => Double {
            bits: x.to_bits(),
            digits: m.replace('.', ""),
            exp10: e.parse().unwrap_or(0),
        },
        None => panic!("{}", s),
    }
}

fn num(h: &mut Host, x: f64) -> Value {
    h.double_value(double(x))
}

fn text(h: &mut Host, s: &str) -> Value {
    h.text_value(s.to_string())
}

fn float_of(h: &Host, v: Value) -> f64 {
    f64::from_bits(h.to_double(v))
}

fn computed(h: &mut Host, t: FloatTask) -> Value {
    let a = float_of(h, t.a);
    let b = float_of(h, t.b);
    let r = match t.op {
        FloatOp::Add => a + b,
        FloatOp::Sub => a - b,
        FloatOp::Mul => a * b,
        FloatOp::Div => a / b,
        FloatOp::Rem => a % b,
        FloatOp::Pow => a.powf(b),
        FloatOp::Neg => -a,
        FloatOp::Abs => a.abs(),
        FloatOp::Sqrt => a.sqrt(),
        FloatOp::Floor => a.floor(),
        FloatOp::Ceil => a.ceil(),
        FloatOp::Round => a.round_ties_even(),
        FloatOp::Convert => a,
        FloatOp::Lt => return Value::Bool(a < b),
        FloatOp::Gt => return Value::Bool(a > b),
        FloatOp::Le => return Value::Bool(a <= b),
        FloatOp::Ge => return Value::Bool(a >= b),
        FloatOp::Eq => return Value::Bool(a == b),
        FloatOp::Ne => return Value::Bool(a != b),
    };
    num(h, r)
}

fn formatted(h: &Host, fmt: &str, args: &Vec<Value>) -> Result<String, String> {
    let mut log: Vec<String> = Vec::new();
    loop {
        match format_string(h, fmt, args, &log) {
            Formatted::Done(s) => return Ok(s),
            Formatted::Fault(m) => return Err(m),
            Formatted::Render(v, prec) => {
                log.push(format!("{:.*e}", prec as usize, float_of(h, v)));
            }
        }
    }
}

fn answered(h: &mut Host, a: Answer) -> Result<Value, String> {
    match a {
        Answer::Value(v) => Ok(v),
        Answer::Fault(m) => Err(m),
        Answer::Compute(t) => Ok(computed(h, t)),
        Answer::Sum(vs) => {
            let total = vs.iter().map(|v| float_of(h, *v)).sum::<f64>();
            Ok(num(h, total))
        }
        Answer::Average(vs) => {
            let total = vs.iter().map(|v| float_of(h, *v)).sum::<f64>();
            let n = vs.len() as f64;
            Ok(num(h, total / n))
        }
        Answer::Read(NumberText::Decimal { negative, body }) => {
            let x: f64 = body.parse().unwrap_or(f64::NAN);
            Ok(num(h, if negative { -x } else { x }))
        }
        Answer::Read(NumberText::Infinity { negative }) => {
            Ok(num(h, if negative { f64::NEG_INFINITY } else { f64::INFINITY }))
        }
        Answer::Read(NumberText::NotANumber) => Ok(num(h, f64::NAN)),
        Answer::Format(fmt, args) => match formatted(h, fmt.as_str(), &args) {
            Ok(s) => Ok(h.text_value(s)),
            Err(m) => Err(m),
        },
        other => panic!("{:?}", other),
    }
}

fn call(h: &mut Host, recv: Value, name: &str, args: Vec<Value>) -> Result<Value, String> {
    let reply = match kt_method(h, recv, name, &args, &Vec::new()) {
        Ok(r) => r,
        Err(stop) => panic!("{:?}", stop),
    };
    let a = finish(h, recv, name, reply);
    answered(h, a)
}

fn said(h: &mut Host, recv: Value, name: &str, args: Vec<Value>) -> String {
    match call(h, recv, name, args) {
        Ok(v) => kotlin_string(h, v),
        Err(m) => format!("! {}", m),
    }
}

fn list(h: &mut Host, ns: &[i64]) -> Value {
    h.allocate(HeapObj::List(ns.iter().map(|n| Value::Int(*n)).collect()))
}

fn set(h: &mut Host, ns: &[i64]) -> Value {
    h.allocate(HeapObj::SetObj(ns.iter().map(|n| Value::Int(*n)).collect()))
}

fn range(h: &mut Host, a: i64, b: i64, form: RangeForm) -> Value {
    h.allocate(HeapObj::Range(RangeObj::new(a, b, form, false)))
}

fn data(h: &mut Host, class: &str, is_data: bool, fields: Vec<(String, Value)>, len: usize) -> Value {
    h.allocate(HeapObj::Instance { class: class.to_string(), is_data, fields, data_from: 0, data_len: len })
}

#[test]
fn a_char_is_no_number() {
    let a = char_of('a' as i64);
    assert!(is_char(&a));
    assert!(!is_int(&a));
    assert!(is_int(&Value::Int(97)));
    assert_eq!(char_code(&a), Some(97));
    assert_eq!(char_code(&Value::Int(97)), None);
    assert_eq!(char_of(0x10061), a);
    assert_ne!(char_of(98), a);
}

#[test]
fn a_char_prints_as_a_character_everywhere() {
    let mut h = Host::new();
    let a = char_of('a' as i64);
    let l = h.allocate(HeapObj::List(vec![a]));
    let m = h.allocate(HeapObj::MapObj(vec![(a, Value::Int(1))]));
    assert_eq!(kotlin_string(&h, a), "a");
    assert_eq!(kotlin_string(&h, l), "[a]");
    assert_eq!(kotlin_string(&h, m), "{a=1}");
    assert!(value_is_type(&h, a, "Char"));
    assert!(!value_is_type(&h, a, "Int"));
}

#[test]
fn truth_of_values() {
    assert!(truthy(&Value::Bool(true)));
    assert!(!truthy(&Value::Bool(false)));
    assert!(!truthy(&Value::Undef));
}

#[test]
fn allocation_keeps_objects() {
    let mut h = Host::new();
    let a = list(&mut h, &[1]);
    let b = list(&mut h, &[2]);
    assert_ne!(a, b);
    assert_eq!(h.obj(a), Some(&HeapObj::List(vec![Value::Int(1)])));
    assert_eq!(h.obj(b), Some(&HeapObj::List(vec![Value::Int(2)])));
    h.reset_heap();
    assert_eq!(h.obj(a), None);
}

#[test]
fn errors_are_taken_once() {
    let mut h = Host::new();
    assert_eq!(take_error(&mut h), None);
    h.error = Some("boom".to_string());
    assert_eq!(take_error(&mut h), Some("boom".to_string()));
    assert_eq!(take_error(&mut h), None);
    assert!(!unwinding(&h));
    set_catchable(&mut h, true);
    assert!(h.catchable);
}

#[test]
fn numbers_are_read_from_values() {
    let mut h = Host::new();
    let t = text(&mut h, "-12");
    let junk = text(&mut h, "12x");
    let f = num(&mut h, 3.9);
    assert_eq!(h.to_int(t), -12);
    assert_eq!(h.to_int(junk), 0);
    assert_eq!(h.to_int(f), 3);
    assert_eq!(h.to_int(Value::Bool(true)), 1);
    assert_eq!(float_of(&h, Value::Int(3)), 3.0);
    let g = text(&mut h, "2.5");
    assert_eq!(float_of(&h, g), 2.5);
}

#[test]
fn ranges_hold_their_elements() {
    let r = RangeObj::new(1, 10, RangeForm::Inclusive, false).stepped(2);
    assert_eq!(r.last(), 9);
    assert_eq!(r.count(), 5);
    assert_eq!(r.at(2), 5);
    assert!(r.contains(7));
    assert!(!r.contains(8));
    assert_eq!(r.to_vec(), vec![1, 3, 5, 7, 9].into_iter().map(Value::Int).collect::<Vec<Value>>());
    let down = RangeObj::new(5, 1, RangeForm::DownTo, false);
    assert_eq!(down.to_vec().len(), 5);
    assert_eq!(down.at(0), 5);
    assert_eq!(RangeObj::new(1, 1, RangeForm::Until, false).count(), 0);
    assert_eq!(RangeObj::new(i64::MIN, i64::MIN, RangeForm::Until, false).count(), 0);
    assert_eq!(difference_modulo(9, 1, 3), 2);
}

#[test]
fn ranges_print_their_last_element() {
    let mut h = Host::new();
    let r = range(&mut h, 1, 5, RangeForm::Inclusive);
    assert_eq!(kotlin_string(&h, r), "1..5");
    let stepped = h.allocate(HeapObj::Range(RangeObj::new(1, 10, RangeForm::Inclusive, false).stepped(2)));
    assert_eq!(kotlin_string(&h, stepped), "1..9 step 2");
    let down = range(&mut h, 5, 1, RangeForm::DownTo);
    assert_eq!(kotlin_string(&h, down), "5 downTo 1 step 1");
    let chars = h.allocate(HeapObj::Range(RangeObj::new(97, 101, RangeForm::Inclusive, true)));
    assert_eq!(kotlin_string(&h, chars), "a..e");
}

#[test]
fn values_print_as_kotlin_prints_them() {
    let mut h = Host::new();
    let s = text(&mut h, "x");
    let pair = h.allocate(HeapObj::Pair(Value::Int(1), s));
    let entry = h.allocate(HeapObj::Entry(Value::Int(1), s));
    let triple = h.allocate(HeapObj::Triple(Value::Int(1), s, Value::Undef));
    assert_eq!(kotlin_string(&h, Value::Undef), "null");
    assert_eq!(kotlin_string(&h, Value::Bool(true)), "true");
    assert_eq!(kotlin_string(&h, Value::Int(-3)), "-3");
    assert_eq!(kotlin_string(&h, pair), "(1, x)");
    assert_eq!(kotlin_string(&h, entry), "1=x");
    assert_eq!(kotlin_string(&h, triple), "(1, x, null)");
    let d = data(&mut h, "P", true, vec![("x".to_string(), Value::Int(1)), ("y".to_string(), Value::Int(2))], 2);
    assert_eq!(kotlin_string(&h, d), "P(x=1, y=2)");
    let ok = h.allocate(HeapObj::Res { value: Value::Int(1), err: None });
    assert_eq!(kotlin_string(&h, ok), "Success(1)");
}

#[test]
fn data_text_sees_the_constructor() {
    let mut h = Host::new();
    let fields = |n: i64| vec![("a".to_string(), Value::Int(1)), ("b".to_string(), Value::Int(n))];
    let x = data(&mut h, "D", true, fields(2), 1);
    let y = data(&mut h, "D", true, fields(3), 1);
    assert_eq!(kotlin_string(&h, x), "D(a=1)");
    assert_eq!(kotlin_string(&h, x), kotlin_string(&h, y));
    assert_eq!(value_eq(&h, x, y), Some(true));
    assert_eq!(value_hash(&h, x, false), value_hash(&h, y, false));
    assert_eq!(said(&mut h, x, "component1", vec![]), "1");
}

#[test]
fn a_collection_that_holds_itself_still_prints() {
    let mut h = Host::new();
    let l = list(&mut h, &[1]);
    if let Value::Obj(id) = l {
        h.replace(id, HeapObj::List(vec![Value::Int(1), l]));
    }
    assert_eq!(kotlin_string(&h, l), "[1, (this Collection)]");
}

#[test]
fn equality_of_collections() {
    let mut h = Host::new();
    let a = list(&mut h, &[1, 2]);
    let b = list(&mut h, &[1, 2]);
    let s = set(&mut h, &[1, 2]);
    let t = set(&mut h, &[2, 1]);
    assert_eq!(value_eq(&h, a, b), Some(true));
    assert_eq!(value_eq(&h, s, t), Some(true));
    assert_eq!(value_eq(&h, a, s), Some(false));
    assert!(!identical(&h, a, b));
    assert!(identical(&h, a, a));
    let x = h.allocate(HeapObj::Array { items: vec![Value::Int(1)], desc: "[I".to_string() });
    let y = h.allocate(HeapObj::Array { items: vec![Value::Int(1)], desc: "[I".to_string() });
    assert_eq!(value_eq(&h, x, y), Some(false));
    let e = h.allocate(HeapObj::Entry(Value::Int(1), Value::Int(2)));
    let p = h.allocate(HeapObj::Pair(Value::Int(1), Value::Int(2)));
    assert_eq!(value_eq(&h, e, p), Some(false));
    let plain = data(&mut h, "C", false, vec![], 0);
    let other = data(&mut h, "C", false, vec![], 0);
    assert_eq!(value_eq(&h, plain, other), Some(false));
    assert_eq!(value_eq(&h, plain, plain), Some(true));
}

#[test]
fn every_value_is_identical_to_itself() {
    let mut h = Host::new();
    let nan = num(&mut h, f64::NAN);
    let s = text(&mut h, "x");
    let s2 = text(&mut h, "x");
    for v in [nan, s, Value::Int(1), Value::Undef, Value::Bool(false), char_of(97)] {
        assert!(identical(&h, v, v));
        assert_eq!(value_eq(&h, v, v), Some(true));
    }
    assert!(identical(&h, s, s2));
    let zero = num(&mut h, 0.0);
    let minus = num(&mut h, -0.0);
    assert!(identical(&h, zero, minus));
    assert_eq!(value_eq(&h, zero, minus), Some(false));
}

#[test]
fn an_endless_comparison_gives_up() {
    let mut h = Host::new();
    let a = list(&mut h, &[]);
    let b = list(&mut h, &[]);
    if let (Value::Obj(i), Value::Obj(j)) = (a, b) {
        h.replace(i, HeapObj::List(vec![a]));
        h.replace(j, HeapObj::List(vec![b]));
    }
    assert_eq!(value_eq(&h, a, b), None);
    assert_eq!(value_hash(&h, a, false), None);
    assert_eq!(equal_vm(&h, a, b, &Vec::new()), Err(Stop::TooDeep));
}

#[test]
fn hashes_follow_the_jvm() {
    let mut h = Host::new();
    assert_eq!(int_hash(-1, false), -1);
    assert_eq!(int_hash(-1, true), 0);
    assert_eq!(string_hash("abc"), 96354);
    assert_eq!(value_hash(&h, Value::Bool(true), false), Some(1231));
    assert_eq!(value_hash(&h, Value::Bool(false), false), Some(1237));
    assert_eq!(value_hash(&h, Value::Undef, false), Some(0));
    let l = list(&mut h, &[1, 2]);
    assert_eq!(value_hash(&h, l, false), Some(994));
    let s = set(&mut h, &[3, 4]);
    let t = set(&mut h, &[4, 3]);
    assert_eq!(value_hash(&h, s, false), Some(7));
    assert_eq!(value_hash(&h, t, false), Some(7));
    let e = h.allocate(HeapObj::Entry(Value::Int(5), Value::Int(3)));
    assert_eq!(value_hash(&h, e, false), Some(6));
    let m = h.allocate(HeapObj::MapObj(vec![(Value::Int(5), Value::Int(3)), (Value::Int(1), Value::Int(1))]));
    let n = h.allocate(HeapObj::MapObj(vec![(Value::Int(1), Value::Int(1)), (Value::Int(5), Value::Int(3))]));
    assert_eq!(value_hash(&h, m, false), Some(6));
    assert_eq!(value_hash(&h, n, false), Some(6));
    let r = range(&mut h, 1, 5, RangeForm::Inclusive);
    assert_eq!(value_hash(&h, r, false), Some(36));
    let x = num(&mut h, 1.5);
    assert_eq!(value_hash(&h, x, false), Some(1073217536));
    assert_eq!(hash_vm(&h, l, false, &Vec::new()), Ok(994));
}

/// The one turn of a walk that asked in the state `h`.
fn turns(h: &Host, answer: Option<Value>) -> Vec<Turn> {
    vec![Turn { host: Rc::new(h.clone()), answer }]
}

#[test]
fn a_declared_equals_is_asked() {
    let mut h = Host::new();
    h.equals_subs.insert("C", 7);
    let a = data(&mut h, "C", false, vec![], 0);
    let b = data(&mut h, "C", false, vec![], 0);
    match equal_vm(&h, a, b, &Vec::new()) {
        Err(Stop::Ask(c)) => {
            assert_eq!(c.sub, 7);
            assert_eq!(c.recv, a);
            assert_eq!(c.other, Some(b));
        }
        other => panic!("{:?}", other),
    }
    assert_eq!(equal_vm(&h, a, b, &turns(&h, Some(Value::Bool(true)))), Ok(true));
    assert_eq!(equal_vm(&h, a, b, &turns(&h, Some(Value::Bool(false)))), Ok(false));
}

#[test]
fn a_declared_text_is_used_inside_collections() {
    let mut h = Host::new();
    h.tostring_subs.insert("C", 3);
    let c = data(&mut h, "C", false, vec![], 0);
    let l = h.allocate(HeapObj::List(vec![c]));
    let t = text(&mut h, "seen");
    match display_vm(&h, l, &Vec::new()) {
        Err(Stop::Ask(call)) => assert_eq!((call.sub, call.recv), (3, c)),
        other => panic!("{:?}", other),
    }
    assert_eq!(display_vm(&h, l, &turns(&h, Some(t))), Ok(("[seen]".to_string(), false)));
}

#[test]
fn what_is_printed_already_stays() {
    let mut h = Host::new();
    h.tostring_subs.insert("C", 3);
    let log = list(&mut h, &[1]);
    let c = data(&mut h, "C", false, vec![], 0);
    let l = h.allocate(HeapObj::List(vec![log, c]));
    let t = text(&mut h, "seen");
    assert!(matches!(display_vm(&h, l, &Vec::new()), Err(Stop::Ask(_))));
    let log_of_turns = turns(&h, Some(t));
    // The member adds to the list that stands before it.
    assert_eq!(said(&mut h, log, "add", vec![Value::Int(2)]), "true");
    assert_eq!(
        display_vm(&h, l, &log_of_turns),
        Ok(("[[1], seen]".to_string(), false))
    );
    // What comes behind the member is printed as the member left it.
    let r = h.allocate(HeapObj::List(vec![c, log]));
    let log_of_turns = turns(&h, Some(t));
    assert_eq!(said(&mut h, log, "add", vec![Value::Int(3)]), "true");
    assert_eq!(
        display_vm(&h, r, &log_of_turns),
        Ok(("[seen, [1, 2, 3]]".to_string(), false))
    );
}

#[test]
fn a_text_that_grows_its_list_ends() {
    let mut h = Host::new();
    h.tostring_subs.insert("C", 3);
    let c = data(&mut h, "C", false, vec![], 0);
    let l = h.allocate(HeapObj::List(vec![c]));
    let t = text(&mut h, "c");
    let mut answers = Vec::new();
    loop {
        match display_vm(&h, l, &answers) {
            Err(Stop::Ask(_)) => {
                answers.push(Turn { host: Rc::new(h.clone()), answer: Some(t) });
                assert_eq!(said(&mut h, l, "add", vec![c]), "true");
            }
            other => {
                assert_eq!(other, Ok(("[c]".to_string(), false)));
                break;
            }
        }
    }
    assert_eq!(answers.len(), 1);
}

#[test]
fn a_hash_code_that_grows_its_list_is_folded_as_it_was() {
    let mut h = Host::new();
    h.hashcode_subs.insert("C", 9);
    let c = data(&mut h, "C", false, vec![], 0);
    let l = h.allocate(HeapObj::List(vec![Value::Int(1), c]));
    let before = turns(&h, Some(Value::Int(5)));
    assert_eq!(said(&mut h, l, "add", vec![Value::Int(7)]), "true");
    assert_eq!(hash_vm(&h, l, false, &before), Ok(997));
    assert!(matches!(hash_vm(&h, l, false, &Vec::new()), Err(Stop::Ask(_))));
}

#[test]
fn an_equals_that_empties_the_list_is_compared_as_it_was() {
    let mut h = Host::new();
    h.equals_subs.insert("C", 7);
    let c = data(&mut h, "C", false, vec![], 0);
    let d = data(&mut h, "C", false, vec![], 0);
    let a = h.allocate(HeapObj::List(vec![c, Value::Int(1)]));
    let b = h.allocate(HeapObj::List(vec![d, Value::Int(1)]));
    let before = turns(&h, Some(Value::Bool(true)));
    assert_eq!(said(&mut h, b, "removeAt", vec![Value::Int(1)]), "1");
    assert_eq!(equal_vm(&h, a, b, &before), Ok(true));
    assert_eq!(equal_vm(&h, a, b, &Vec::new()), Ok(false));
}

#[test]
fn doubles_print_their_shortest_form() {
    for (x, s) in [
        (0.0, "0.0"),
        (-0.0, "-0.0"),
        (1.0, "1.0"),
        (0.1, "0.1"),
        (123.456, "123.456"),
        (1e7, "1.0E7"),
        (1234567.0, "1234567.0"),
        (0.001, "0.001"),
        (0.0001, "1.0E-4"),
        (f64::INFINITY, "Infinity"),
        (f64::NEG_INFINITY, "-Infinity"),
        (f64::NAN, "NaN"),
        (f64::MAX, "1.7976931348623157E308"),
    ] {
        assert_eq!(format_double(&double(x)), s);
    }
}

#[test]
fn fixed_digits_round_half_up() {
    assert_eq!(format_fixed(&double(2.5), 0), "3");
    assert_eq!(format_fixed(&double(0.125), 2), "0.13");
    assert_eq!(format_fixed(&double(9.999), 2), "10.00");
    assert_eq!(format_fixed(&double(-1.5), 0), "-2");
    assert_eq!(format_fixed(&double(3.0), 3), "3.000");
}

#[test]
fn doubles_compare_by_bits_or_by_value() {
    let nan = f64::NAN.to_bits();
    let zero = 0.0f64.to_bits();
    let minus = (-0.0f64).to_bits();
    assert!(double_equal(nan, nan));
    assert!(!double_equal(zero, minus));
    assert!(numerically_equal(zero, minus));
    assert!(!numerically_equal(nan, nan));
    assert_eq!(double_compare(minus, zero), -1);
    assert_eq!(double_compare(1.5f64.to_bits(), 2.5f64.to_bits()), -1);
    assert_eq!(double_compare(nan, f64::INFINITY.to_bits()), 1);
    assert_eq!(double_hash(1.5f64.to_bits()), 1073217536);
    assert_eq!(java_fmax(zero, minus), zero);
    assert_eq!(java_fmin(zero, minus), minus);
    assert!(f64::from_bits(java_fmax(nan, zero)).is_nan());
}

#[test]
fn doubles_to_integers() {
    assert_eq!(double_to_int(3.99f64.to_bits()), 3);
    assert_eq!(double_to_int((-3.99f64).to_bits()), -3);
    assert_eq!(double_to_int(1e300f64.to_bits()), i64::MAX);
    assert_eq!(double_to_int(f64::NAN.to_bits()), 0);
    assert_eq!(java_math_round(2.5f64.to_bits()), 3);
    assert_eq!(java_math_round((-2.5f64).to_bits()), -2);
}

#[test]
fn integer_division_truncates_or_floors() {
    assert_eq!(int_div(-7, 2), -3);
    assert_eq!(int_rem(-7, 2), -1);
    assert_eq!(floor_div(-7, 2), -4);
    assert_eq!(floor_mod(-7, 2), 1);
    assert_eq!(int_div(i64::MIN, -1), i64::MIN);
    assert_eq!(floor_mod(i64::MIN, -1), 0);
    for (x, y) in [(7, 2), (-7, 2), (7, -2), (-7, -2)] {
        assert_eq!(int_div(x, y) * y + int_rem(x, y), x);
        assert_eq!(floor_div(x, y) * y + floor_mod(x, y), x);
    }
}

#[test]
fn char_arithmetic() {
    let mut h = Host::new();
    let hook = |h: &mut Host, op: NumOp, a: Value, b: Value| {
        let r = num_hook(h, op, a, b);
        let a = settle(h, r);
        match answered(h, a) {
            Ok(v) => v,
            Err(m) => panic!("{}", m),
        }
    };
    let a = char_of(97);
    assert_eq!(hook(&mut h, NumOp::Add, a, Value::Int(1)), char_of(98));
    assert_eq!(hook(&mut h, NumOp::Sub, char_of(68), char_of(65)), Value::Int(3));
    assert_eq!(hook(&mut h, NumOp::Lt, a, char_of(98)), Value::Bool(true));
    let s = text(&mut h, "n=");
    let joined = hook(&mut h, NumOp::Add, s, Value::Int(4));
    assert_eq!(kotlin_string(&h, joined), "n=4");
}

fn math(h: &mut Host, name: &str, args: Vec<Value>) -> String {
    let r = math_call(h, name, &args);
    let a = settle(h, r);
    match answered(h, a) {
        Ok(v) => kotlin_string(h, v),
        Err(m) => format!("! {}", m),
    }
}

#[test]
fn mathematics() {
    let mut h = Host::new();
    let x = num(&mut h, 2.5);
    let y = num(&mut h, 2.0);
    assert_eq!(math(&mut h, "abs", vec![Value::Int(-3)]), "3");
    assert_eq!(math(&mut h, "max", vec![Value::Int(2), Value::Int(5)]), "5");
    assert_eq!(math(&mut h, "min", vec![x, y]), "2.0");
    assert_eq!(math(&mut h, "sqrt", vec![y]), "1.4142135623730951");
    assert_eq!(math(&mut h, "floor", vec![x]), "2.0");
    assert_eq!(math(&mut h, "ceil", vec![x]), "3.0");
    assert_eq!(math(&mut h, "round", vec![x]), "2.0");
}

#[test]
fn number_members() {
    let mut h = Host::new();
    let w = Value::Int(32);
    assert_eq!(said(&mut h, Value::Int(5), "coerceIn", vec![Value::Int(1), Value::Int(3)]), "3");
    assert_eq!(said(&mut h, Value::Int(5), "coerceAtLeast", vec![Value::Int(9)]), "9");
    assert_eq!(said(&mut h, Value::Int(5), "coerceAtMost", vec![Value::Int(3)]), "3");
    assert_eq!(said(&mut h, Value::Int(-5), "absoluteValue", vec![]), "5");
    assert_eq!(said(&mut h, Value::Int(65), "toChar", vec![]), "A");
    assert_eq!(said(&mut h, Value::Int(300), "toByte", vec![]), "44");
    assert_eq!(said(&mut h, Value::Int(1), "shl", vec![Value::Int(32), w]), "1");
    assert_eq!(said(&mut h, Value::Int(1), "shl", vec![Value::Int(32), Value::Int(64)]), "4294967296");
    assert_eq!(said(&mut h, Value::Int(6), "and", vec![Value::Int(3)]), "2");
    assert_eq!(said(&mut h, Value::Int(6), "xor", vec![Value::Int(3)]), "5");
    assert_eq!(said(&mut h, Value::Int(0), "inv", vec![w]), "-1");
    assert_eq!(said(&mut h, Value::Int(-1), "hashCode", vec![w]), "-1");
    assert_eq!(said(&mut h, Value::Int(-1), "hashCode", vec![Value::Int(64)]), "0");
    assert_eq!(said(&mut h, Value::Int(255), "toString", vec![Value::Int(16)]), "ff");
    let x = num(&mut h, 2.5);
    assert_eq!(said(&mut h, x, "roundToInt", vec![]), "3");
    assert_eq!(said(&mut h, x, "toInt", vec![]), "2");
    assert_eq!(said(&mut h, Value::Int(7), "toDouble", vec![]), "7.0");
    let two = num(&mut h, 2.0);
    assert_eq!(said(&mut h, x, "pow", vec![two]), "6.25");
    assert_eq!(said(&mut h, Value::Int(3), "compareTo", vec![Value::Int(5)]), "-1");
}

#[test]
fn throwables_have_their_lineage() {
    assert_eq!(throwable_fqn("RuntimeException"), Some("java.lang.RuntimeException"));
    assert_eq!(throwable_fqn("Nope"), None);
    assert!(throwable_is_a("IllegalArgumentException", "RuntimeException"));
    assert!(throwable_is_a("ArithmeticException", "Exception"));
    assert!(!throwable_is_a("RuntimeException", "IllegalArgumentException"));
    assert!(!throwable_is_a("NotImplementedError", "Exception"));
    assert!(throwable_is_a("NotImplementedError", "Error"));
    assert_eq!(
        throwable_ancestry("IllegalStateException"),
        vec!["IllegalStateException", "RuntimeException", "Exception", "Throwable"]
    );
    assert!(throwable_ancestry("Nope").is_empty());
}

#[test]
fn throwables_print_class_and_message() {
    let mut h = Host::new();
    let e = h.allocate(HeapObj::Exc {
        class: "java.lang.RuntimeException".to_string(),
        msg: Some("boom".to_string()),
    });
    assert_eq!(throwable_str(&h, e), "java.lang.RuntimeException: boom");
    assert_eq!(kotlin_string(&h, e), "java.lang.RuntimeException: boom");
    assert_eq!(said(&mut h, e, "message", vec![]), "boom");
    let bare = h.allocate(HeapObj::Exc { class: "java.lang.Exception".to_string(), msg: None });
    assert_eq!(kotlin_string(&h, bare), "java.lang.Exception");
    assert_eq!(said(&mut h, bare, "message", vec![]), "null");
    assert!(throwable_matches(&h, e, "Exception"));
    assert!(!throwable_matches(&h, e, "Error"));
}

#[test]
fn type_tests() {
    let mut h = Host::new();
    let s = text(&mut h, "x");
    let l = list(&mut h, &[1]);
    let x = num(&mut h, 1.0);
    assert!(value_is_type(&h, s, "String"));
    assert!(value_is_type(&h, l, "List"));
    assert!(!value_is_type(&h, l, "Set"));
    assert!(value_is_type(&h, x, "Double"));
    assert!(value_is_type(&h, Value::Int(1), "Int"));
    assert!(value_is_type(&h, Value::Bool(true), "Boolean"));
    assert!(value_is_type(&h, s, "Any"));
    assert_eq!(type_label(Value::Int(1)), "Int");
    assert_eq!(obj_label(&h, l), "List");
    assert_eq!(simple_name("java.lang.Exception"), "Exception");
    assert_eq!(
        cast_failure(&h, s, "Int"),
        "java.lang.ClassCastException: class java.lang.String cannot be cast to class java.lang.Integer (java.lang.String and java.lang.Integer are in module java.base of loader 'bootstrap')"
    );
}

#[test]
fn natural_order() {
    let mut h = Host::new();
    let a = text(&mut h, "a");
    let b = text(&mut h, "b");
    assert_eq!(value_order(&h, a, b), -1);
    assert_eq!(value_order(&h, Value::Int(3), Value::Int(2)), 1);
    assert_eq!(value_order(&h, char_of(97), char_of(97)), 0);
    assert_eq!(compare_text("ab", "abc"), -1);
}

#[test]
fn a_list_remembers_its_class() {
    let mut h = Host::new();
    let l = list(&mut h, &[1]);
    assert_eq!(h.list_tag(l), None);
    h.tag_list(l, ListImpl::Literal);
    assert_eq!(h.list_tag(l), Some(ListImpl::Literal));
    assert!(!h.is_sequence_view(l));
    h.tag_sequence(l);
    assert!(h.is_sequence_view(l));
}

#[test]
fn a_declared_hash_is_asked() {
    let mut h = Host::new();
    h.hashcode_subs.insert("C", 9);
    let a = data(&mut h, "C", true, vec![("x".to_string(), Value::Int(1))], 1);
    let l = h.allocate(HeapObj::List(vec![a]));
    match hash_vm(&h, l, false, &Vec::new()) {
        Err(Stop::Ask(c)) => assert_eq!((c.sub, c.recv, c.other), (9, a, None)),
        other => panic!("{:?}", other),
    }
    assert_eq!(hash_vm(&h, l, false, &turns(&h, Some(Value::Int(5)))), Ok(36));
}

#[test]
fn equality_asks_even_of_an_object_and_itself() {
    let mut h = Host::new();
    h.equals_subs.insert("C", 7);
    let a = data(&mut h, "C", false, vec![], 0);
    match equal_vm(&h, a, a, &Vec::new()) {
        Err(Stop::Ask(c)) => assert_eq!(c.sub, 7),
        other => panic!("{:?}", other),
    }
    assert!(identical(&h, a, a));
}

#[test]
fn doubles_that_are_equal_hash_and_compare_alike() {
    let xs = [0.0, -0.0, 1.0, 1.5, -1.5, f64::INFINITY, f64::NEG_INFINITY, f64::NAN, -f64::NAN];
    for a in xs {
        for b in xs {
            let (a, b) = (a.to_bits(), b.to_bits());
            assert_eq!(double_compare(a, b) == 0, double_equal(a, b));
            if double_equal(a, b) {
                assert_eq!(double_hash(a), double_hash(b));
            }
        }
    }
    assert!(double_equal(f64::NAN.to_bits(), (-f64::NAN).to_bits()));
    assert!(!double_equal(0.0f64.to_bits(), (-0.0f64).to_bits()));
    assert_eq!(double_hash(1.0f64.to_bits()), 1072693248);
}

#[test]
fn equal_values_hash_alike() {
    let mut h = Host::new();
    let mut made = Vec::new();
    for order in [[1, 2, 3], [3, 1, 2]] {
        let s = set(&mut h, &order);
        let entries = order.iter().map(|n| (Value::Int(*n), Value::Int(n * n))).collect();
        let m = h.allocate(HeapObj::MapObj(entries));
        let d = data(&mut h, "D", true, vec![("s".to_string(), s), ("m".to_string(), m)], 2);
        let l = h.allocate(HeapObj::List(vec![d, Value::Undef, char_of(97)]));
        made.push([s, m, d, l]);
    }
    for k in 0..4 {
        let (a, b) = (made[0][k], made[1][k]);
        assert_eq!(value_eq(&h, a, b), Some(true));
        assert_eq!(value_eq(&h, b, a), Some(true));
        assert!(value_hash(&h, a, false).is_some());
        assert_eq!(value_hash(&h, a, false), value_hash(&h, b, false));
    }
    // An integer equals the double of its value, but has another hash.
    let one = num(&mut h, 1.0);
    assert_eq!(value_eq(&h, Value::Int(1), one), Some(true));
    assert_ne!(value_hash(&h, Value::Int(1), false), value_hash(&h, one, false));
}
