use kotlinrs::host::set_catchable;
use kotlinrs::instances::{
    construct, declare_enum, declare_override, declare_type, get_field, read_meta, set_field,
    Override,
};
use kotlinrs::ops::{
    ffi_block_fault, ffi_called, handle_coercion, operand_count, vm_string, Effect,
    KT_ARRAY, KT_ARRAY_INIT, KT_ARRAY_NEW, KT_AS, KT_BUILDER, KT_CHR_STRING, KT_CLASSOF,
    KT_CLOSURE_CALL, KT_COLL_HOF, KT_COMPARATOR, KT_DBG_LINE, KT_DDIV, KT_DISPLAY, KT_ENUM_REG,
    KT_EQUALS_REG, KT_EXC_ABORT, KT_EXC_CUT, KT_EXC_DEPTH, KT_EXC_MATCH, KT_EXC_NEW,
    KT_EXC_PENDING, KT_EXC_STASH, KT_EXC_TAKE, KT_EXC_THROW, KT_EXC_UNSTASH, KT_EXTEND,
    KT_FFI_CALL, KT_FFI_COMPILE, KT_GENSEQ, KT_GETFIELD, KT_HASH_REG, KT_IDENTITY, KT_IDIV,
    KT_IMOD, KT_IN, KT_INDEX_GET, KT_INDEX_GET_VM, KT_INDEX_SET, KT_INDEX_SET_VM, KT_IN_VM, KT_IS,
    KT_ISNULL, KT_ITER_GET, KT_ITER_SIZE, KT_JOIN, KT_LAZY_GET, KT_LAZY_NEW, KT_LIST, KT_LISTPUSH,
    KT_LIST_RO, KT_LIST_TAG, KT_MAKE_CLOSURE, KT_MAP, KT_MAP_VM, KT_MATH, KT_METHOD, KT_METHOD_VM,
    KT_NEW, KT_NEWLIST, KT_NOTNULL, KT_OBJEQ, KT_OBJEQ_VM, KT_OPER_VM, KT_PAIR, KT_PRECOND,
    KT_PRINT, KT_PRINTLN, KT_RANGE, KT_RANGE_STEP, KT_RESULT_HOF, KT_RUN_CATCHING, KT_SCOPE_FN,
    KT_SET, KT_SETFIELD, KT_SET_VM, KT_TOSTRING_REG, KT_TO_STRING, KT_TYPE_REG,
};
use kotlinrs::reply::{settle, Reply};
use kotlinrs::throwing::{
    exc_abort, exc_cut, exc_match, exc_new, exc_stash, exc_take, exc_unstash, fault, printed,
    raise, throwable_from_message,
};
use kotlinrs::types::value_is_type;
use kotlinrs::value::{char_of, HeapObj};
use kotlinrs::display::kotlin_string;
use kotlinrs::format::{format_string, Formatted};
use kotlinrs::host::Host;
use kotlinrs::members::{finish, kt_method};
use kotlinrs::reply::{Answer, FloatOp, FloatTask, NumberText};
use kotlinrs::value::{Double, Value};

fn double(x: f64) -> Double {
    if x == 0.0 || !x.is_finite() {
        return Double { bits: x.to_bits(), digits: "0".to_string(), exp10: 0 };
    }
    let s = format!("{:e}", x.abs());
    match s.split_once('e') {
        Some((m, e)) => Double {
            bits: x.to_bits(),
            digits: m.replace('.', ""),
            exp10: e.parse().unwrap_or(0),
        },
        None => panic!("{}", s),
    }
}

fn num(h: &mut Host, x: f64) -> Value {
    h.double_value(double(x))
}

fn text(h: &mut Host, s: &str) -> Value {
    h.text_value(s.to_string())
}

fn float_of(h: &Host, v: Value) -> f64 {
    f64::from_bits(h.to_double(v))
}

fn computed(h: &mut Host, t: FloatTask) -> Value {
    let a = float_of(h, t.a);
    let b = float_of(h, t.b);
    let r = match t.op {
        FloatOp::Add => a + b,
        FloatOp::Sub => a - b,
        FloatOp::Mul => a * b,
        FloatOp::Div => a / b,
        FloatOp::Rem => a % b,
        FloatOp::Pow => a.powf(b),
        FloatOp::Neg => -a,
        FloatOp::Abs => a.abs(),
        FloatOp::Sqrt => a.sqrt(),
        FloatOp::Floor => a.floor(),
        FloatOp::Ceil => a.ceil(),
        FloatOp::Round => a.round_ties_even(),
        FloatOp::Convert => a,
        FloatOp::Lt => return Value::Bool(a < b),
        FloatOp::Gt => return Value::Bool(a > b),
        FloatOp::Le => return Value::Bool(a <= b),
        FloatOp::Ge => return Value::Bool(a >= b),
        FloatOp::Eq => return Value::Bool(a == b),
        FloatOp::Ne => return Value::Bool(a != b),
    };
    num(h, r)
}

fn formatted(h: &Host, fmt: &str, args: &Vec<Value>) -> Result<String, String> {
    let mut log: Vec<String> = Vec::new();
    loop {
        match format_string(h, fmt, args, &log) {
            Formatted::Done(s) => return Ok(s),
            Formatted::Fault(m) => return Err(m),
            Formatted::Render(v, prec) => {
                log.push(format!("{:.*e}", prec as usize, float_of(h, v)));
            }
        }
    }
}

fn answered(h: &mut Host, a: Answer) -> Result<Value, String> {
    match a {
        Answer::Value(v) => Ok(v),
        Answer::Fault(m) => Err(m),
        Answer::Compute(t) => Ok(computed(h, t)),
        Answer::Sum(vs) => {
            let total = vs.iter().map(|v| float_of(h, *v)).sum::<f64>();
            Ok(num(h, total))
        }
        Answer::Average(vs) => {
            let total = vs.iter().map(|v| float_of(h, *v)).sum::<f64>();
            let n = vs.len() as f64;
            Ok(num(h, total / n))
        }
        Answer::Read(NumberText::Decimal { negative, body }) => {
            let x: f64 = body.parse().unwrap_or(f64::NAN);
            Ok(num(h, if negative { -x } else { x }))
        }
        Answer::Read(NumberText::Infinity { negative }) => {
            Ok(num(h, if negative { f64::NEG_INFINITY } else { f64::INFINITY }))
        }
        Answer::Read(NumberText::NotANumber) => Ok(num(h, f64::NAN)),
        Answer::Format(fmt, args) => match formatted(h, fmt.as_str(), &args) {
            Ok(s) => Ok(h.text_value(s)),
            Err(m) => Err(m),
        },
        other => panic!("{:?}", other),
    }
}

fn call(h: &mut Host, recv: Value, name: &str, args: Vec<Value>) -> Result<Value, String> {
    let reply = match kt_method(h, recv, name, &args, &Vec::new()) {
        Ok(r) => r,
        Err(stop) => panic!("{:?}", stop),
    };
    let a = finish(h, recv, name, reply);
    answered(h, a)
}

fn said(h: &mut Host, recv: Value, name: &str, args: Vec<Value>) -> String {
    match call(h, recv, name, args) {
        Ok(v) => kotlin_string(h, v),
        Err(m) => format!("! {}", m),
    }
}

fn ints(ns: &[i64]) -> Vec<Value> {
    ns.iter().map(|n| Value::Int(*n)).collect()
}

/// Run one operation, and say what it pushes.
fn op(h: &mut Host, id: u16, arg: u8, ops: Vec<Value>) -> Result<Value, String> {
    assert_eq!(operand_count(id, arg), ops.len());
    match handle_coercion(h, id, arg, &ops, &Vec::new()) {
        Ok(Effect::Push(r)) | Ok(Effect::Quiet(r)) | Ok(Effect::Stored(_, r)) => {
            let a = settle(h, r);
            answered(h, a)
        }
        Ok(Effect::Member(recv, name, r)) => {
            let a = finish(h, recv, name.as_str(), r);
            answered(h, a)
        }
        Ok(Effect::FaultAnd(m, _)) => Err(m),
        Ok(Effect::Nothing) => Ok(Value::Undef),
        Ok(Effect::Outside) => Err("outside".to_string()),
        Err(s) => panic!("{:?}", s),
    }
}

fn shown(h: &mut Host, id: u16, arg: u8, ops: Vec<Value>) -> String {
    match op(h, id, arg, ops) {
        Ok(v) => kotlin_string(h, v),
        Err(m) => format!("! {}", m),
    }
}

fn meta(h: &mut Host, class: &str, kind: &str, len: &str, widths: &str, names: &[&str]) -> Value {
    let mut parts = vec![class, kind, len, widths];
    parts.extend(names);
    text(h, parts.join("\u{1f}").as_str())
}

#[test]
fn ids_are_distinct() {
    let ids = [
        KT_ARRAY, KT_ARRAY_INIT, KT_ARRAY_NEW, KT_AS, KT_BUILDER, KT_CHR_STRING, KT_CLASSOF,
        KT_CLOSURE_CALL, KT_COLL_HOF, KT_COMPARATOR, KT_DBG_LINE, KT_DDIV, KT_DISPLAY,
        KT_ENUM_REG, KT_EQUALS_REG, KT_EXC_ABORT, KT_EXC_CUT, KT_EXC_DEPTH, KT_EXC_MATCH,
        KT_EXC_NEW, KT_EXC_PENDING, KT_EXC_STASH, KT_EXC_TAKE, KT_EXC_THROW, KT_EXC_UNSTASH,
        KT_EXTEND, KT_FFI_CALL, KT_FFI_COMPILE, KT_GENSEQ, KT_GETFIELD, KT_HASH_REG, KT_IDENTITY,
        KT_IDIV, KT_IMOD, KT_IN, KT_INDEX_GET, KT_INDEX_GET_VM, KT_INDEX_SET, KT_INDEX_SET_VM,
        KT_IN_VM, KT_IS, KT_ISNULL, KT_ITER_GET, KT_ITER_SIZE, KT_JOIN, KT_LAZY_GET, KT_LAZY_NEW,
        KT_LIST, KT_LISTPUSH, KT_LIST_RO, KT_LIST_TAG, KT_MAKE_CLOSURE, KT_MAP, KT_MAP_VM,
        KT_MATH, KT_METHOD, KT_METHOD_VM, KT_NEW, KT_NEWLIST, KT_NOTNULL, KT_OBJEQ, KT_OBJEQ_VM,
        KT_OPER_VM, KT_PAIR, KT_PRECOND, KT_PRINT, KT_PRINTLN, KT_RANGE, KT_RANGE_STEP,
        KT_RESULT_HOF, KT_RUN_CATCHING, KT_SCOPE_FN, KT_SET, KT_SETFIELD, KT_SET_VM,
        KT_TOSTRING_REG, KT_TO_STRING, KT_TYPE_REG,
    ];
    for i in 0..ids.len() {
        for j in 0..i {
            assert_ne!(ids[i], ids[j]);
        }
    }
}

#[test]
fn arithmetic_operations() {
    let mut h = Host::new();
    assert_eq!(shown(&mut h, KT_IDIV, 0, ints(&[-7, 2])), "-3");
    assert_eq!(shown(&mut h, KT_IMOD, 0, ints(&[-7, 2])), "-1");
    assert_eq!(shown(&mut h, KT_IDIV, 0, ints(&[1, 0])), "! java.lang.ArithmeticException: / by zero");
    assert_eq!(shown(&mut h, KT_IMOD, 0, ints(&[1, 0])), "! java.lang.ArithmeticException: / by zero");
    assert_eq!(shown(&mut h, KT_DDIV, 0, ints(&[1, 0])), "Infinity");
    let name = text(&mut h, "abs");
    assert_eq!(shown(&mut h, KT_MATH, 1, vec![Value::Int(-4), name]), "4");
}

#[test]
fn collections_are_built() {
    let mut h = Host::new();
    assert_eq!(shown(&mut h, KT_LIST, 3, ints(&[1, 2, 3])), "[1, 2, 3]");
    assert_eq!(shown(&mut h, KT_SET, 4, ints(&[3, 1, 2, 3])), "[3, 1, 2]");
    assert_eq!(shown(&mut h, KT_PAIR, 0, ints(&[1, 2])), "(1, 2)");
    assert_eq!(shown(&mut h, KT_PAIR, 1, ints(&[1, 2, 3])), "(1, 2, 3)");
    let p = h.allocate(HeapObj::Pair(Value::Int(1), Value::Int(2)));
    let q = h.allocate(HeapObj::Pair(Value::Int(1), Value::Int(5)));
    assert_eq!(shown(&mut h, KT_MAP, 2, vec![p, q]), "{1=5}");
    let desc = text(&mut h, "[I");
    match op(&mut h, KT_ARRAY_NEW, 0, vec![Value::Int(2), desc]) {
        Ok(v) => assert_eq!(
            h.obj(v),
            Some(&HeapObj::Array { items: ints(&[0, 0]), desc: "[I".to_string() })
        ),
        Err(m) => panic!("{}", m),
    }
    let l = match op(&mut h, KT_NEWLIST, 0, vec![]) {
        Ok(v) => v,
        Err(m) => panic!("{}", m),
    };
    assert!(op(&mut h, KT_LISTPUSH, 0, vec![l, Value::Int(7)]).is_ok());
    assert_eq!(kotlin_string(&h, l), "[7]");
    let tag = text(&mut h, "builder");
    assert!(op(&mut h, KT_LIST_TAG, 0, vec![l, tag]).is_ok());
}

#[test]
fn indexing_and_membership() {
    let mut h = Host::new();
    let l = h.allocate(HeapObj::List(ints(&[5, 6])));
    assert_eq!(shown(&mut h, KT_INDEX_GET, 0, vec![l, Value::Int(1)]), "6");
    assert!(op(&mut h, KT_INDEX_SET, 0, vec![l, Value::Int(0), Value::Int(9)]).is_ok());
    assert_eq!(kotlin_string(&h, l), "[9, 6]");
    assert_eq!(shown(&mut h, KT_IN, 0, vec![Value::Int(6), l]), "true");
    assert_eq!(shown(&mut h, KT_ITER_SIZE, 0, vec![l]), "2");
    assert_eq!(shown(&mut h, KT_ITER_GET, 0, vec![l, Value::Int(1)]), "6");
    assert!(shown(&mut h, KT_ITER_SIZE, 0, vec![Value::Int(1)]).starts_with("! "));
}

#[test]
fn ranges_are_values() {
    let mut h = Host::new();
    let r = match op(&mut h, KT_RANGE, 0, ints(&[1, 10])) {
        Ok(v) => v,
        Err(m) => panic!("{}", m),
    };
    assert_eq!(kotlin_string(&h, r), "1..10");
    assert_eq!(shown(&mut h, KT_RANGE_STEP, 0, vec![r, Value::Int(2)]), "1..9 step 2");
    assert_eq!(
        shown(&mut h, KT_RANGE_STEP, 0, vec![r, Value::Int(0)]),
        "! java.lang.IllegalArgumentException: Step must be positive, was: 0."
    );
}

#[test]
fn tests_on_values() {
    let mut h = Host::new();
    let s = text(&mut h, "x");
    let string = text(&mut h, "String");
    let whole = text(&mut h, "Int");
    assert_eq!(shown(&mut h, KT_IS, 0, vec![s, string]), "true");
    assert_eq!(shown(&mut h, KT_IS, 0, vec![s, whole]), "false");
    assert_eq!(shown(&mut h, KT_AS, 0, vec![s, string]), "x");
    assert_eq!(shown(&mut h, KT_AS, 1, vec![s, whole]), "null");
    assert!(shown(&mut h, KT_AS, 0, vec![s, whole]).starts_with("! java.lang.ClassCastException"));
    assert_eq!(shown(&mut h, KT_ISNULL, 0, vec![Value::Undef]), "true");
    assert_eq!(shown(&mut h, KT_NOTNULL, 0, vec![s]), "x");
    assert_eq!(shown(&mut h, KT_NOTNULL, 0, vec![Value::Undef]), "! java.lang.NullPointerException");
    assert_eq!(shown(&mut h, KT_IDENTITY, 0, vec![s, s]), "true");
    assert_eq!(shown(&mut h, KT_OBJEQ, 0, vec![s, string]), "false");
    assert_eq!(shown(&mut h, KT_TO_STRING, 0, vec![Value::Undef]), "null");
    assert_eq!(shown(&mut h, KT_CHR_STRING, 0, vec![char_of(97)]), "a");
}

#[test]
fn members_are_called() {
    let mut h = Host::new();
    let s = text(&mut h, "abc");
    let take = text(&mut h, "take");
    assert_eq!(shown(&mut h, KT_METHOD, 1, vec![s, Value::Int(2), take]), "ab");
    assert_eq!(shown(&mut h, KT_BUILDER, 0, vec![]), "");
    assert_eq!(shown(&mut h, KT_BUILDER, 1, vec![s]), "abc");
}

#[test]
fn instances_have_fields() {
    let mut h = Host::new();
    let m = meta(&mut h, "P", "d", "2", "", &["x", "y"]);
    let p = match op(&mut h, KT_NEW, 2, vec![m, Value::Int(1), Value::Int(2)]) {
        Ok(v) => v,
        Err(e) => panic!("{}", e),
    };
    assert_eq!(kotlin_string(&h, p), "P(x=1, y=2)");
    let y = text(&mut h, "y");
    let x = text(&mut h, "x");
    assert_eq!(shown(&mut h, KT_GETFIELD, 0, vec![p, y]), "2");
    assert!(op(&mut h, KT_SETFIELD, 0, vec![p, Value::Int(5), y]).is_ok());
    assert_eq!(shown(&mut h, KT_GETFIELD, 0, vec![p, y]), "5");
    assert_eq!(shown(&mut h, KT_GETFIELD, 0, vec![p, x]), "1");
    let z = text(&mut h, "z");
    assert!(shown(&mut h, KT_GETFIELD, 0, vec![p, z]).starts_with("! "));
    assert_eq!(shown(&mut h, KT_CLASSOF, 0, vec![p]), "P");
}

#[test]
fn a_subclass_inherits_its_fields() {
    let mut h = Host::new();
    let base_meta = meta(&mut h, "Node", "c", "1", "", &["depth"]);
    let leaf_meta = meta(&mut h, "Leaf", "d", "1", "", &["v"]);
    let base = match op(&mut h, KT_NEW, 1, vec![base_meta, Value::Int(1)]) {
        Ok(v) => v,
        Err(e) => panic!("{}", e),
    };
    let leaf = match op(&mut h, KT_EXTEND, 1, vec![base, leaf_meta, Value::Int(7)]) {
        Ok(v) => v,
        Err(e) => panic!("{}", e),
    };
    assert_eq!(kotlin_string(&h, leaf), "Leaf(v=7)");
    let depth = text(&mut h, "depth");
    assert_eq!(shown(&mut h, KT_GETFIELD, 0, vec![leaf, depth]), "1");
}

#[test]
fn class_descriptions_are_read() {
    let m = read_meta("P\u{1f}d\u{1f}2\u{1f}il\u{1f}x\u{1f}y");
    assert_eq!(m.class, "P");
    assert!(m.is_data);
    assert_eq!(m.data_len, 2);
    assert_eq!(m.widths, "il");
    assert_eq!(m.names, vec!["x", "y"]);
    let bare = read_meta("C");
    assert!(!bare.is_data);
    assert_eq!(bare.data_len, 0);
    assert!(bare.names.is_empty());
}

#[test]
fn long_properties_hash_wide() {
    let mut h = Host::new();
    let o = construct(&mut h, Value::Undef, "W\u{1f}d\u{1f}1\u{1f}l\u{1f}n", &ints(&[-1]));
    let w = h.allocate(o);
    assert_eq!(said(&mut h, w, "hashCode", vec![]), "0");
    let o = construct(&mut h, Value::Undef, "V\u{1f}d\u{1f}1\u{1f}i\u{1f}n", &ints(&[-1]));
    let v = h.allocate(o);
    assert_eq!(said(&mut h, v, "hashCode", vec![]), "-1");
}

#[test]
fn declarations_are_kept() {
    let mut h = Host::new();
    declare_type(&mut h, "Dog", "Animal,Named");
    declare_override(&mut h, Override::Text, "Dog", 4);
    declare_enum(&mut h, "Color");
    let o = construct(&mut h, Value::Undef, "Dog\u{1f}c\u{1f}0\u{1f}", &Vec::new());
    let d = h.allocate(o);
    assert!(value_is_type(&h, d, "Animal"));
    assert!(value_is_type(&h, d, "Named"));
    assert!(!value_is_type(&h, d, "Cat"));
    assert_eq!(h.tostring_subs.get("Dog"), Some(&4));
    assert!(h.is_enum_class("Color"));
    match (get_field(&h, d, "none"), set_field(&h, d, "none", Value::Undef)) {
        (Reply::Fault(a), Reply::Fault(b)) => {
            assert!(a.contains("none"));
            assert!(b.contains("none"));
        }
        other => panic!("{:?}", other),
    }
}

#[test]
fn a_fault_without_try_stops_the_run() {
    let mut h = Host::new();
    assert!(fault(&mut h, "java.lang.ArithmeticException: / by zero".to_string()));
    assert_eq!(
        h.error,
        Some("Exception in thread \"main\" java.lang.ArithmeticException: / by zero".to_string())
    );
}

#[test]
fn a_fault_with_try_is_raised() {
    let mut h = Host::new();
    set_catchable(&mut h, true);
    assert!(!fault(&mut h, "java.lang.ArithmeticException: / by zero".to_string()));
    assert!(exc_match(&h, "ArithmeticException"));
    assert!(exc_match(&h, "RuntimeException"));
    assert!(exc_match(&h, "Throwable"));
    assert!(!exc_match(&h, "IllegalStateException"));
    let e = exc_take(&mut h);
    assert_eq!(kotlin_string(&h, e), "java.lang.ArithmeticException: / by zero");
    assert_eq!(h.pending, None);
}

#[test]
fn internal_faults_are_not_catchable() {
    let mut h = Host::new();
    set_catchable(&mut h, true);
    assert!(fault(&mut h, "unresolved reference: f".to_string()));
    assert_eq!(h.pending, None);
    assert_eq!(h.error, Some("unresolved reference: f".to_string()));
    assert_eq!(throwable_from_message("kotlin: lambda body not found"), None);
    assert_eq!(throwable_from_message("java.lang.String: x"), None);
}

#[test]
fn the_first_exception_wins() {
    let mut h = Host::new();
    set_catchable(&mut h, true);
    let a = exc_new(&mut h, "java.lang.Exception", Value::Int(1));
    let b = exc_new(&mut h, "java.lang.Exception", Value::Undef);
    assert!(!raise(&mut h, a));
    assert!(!raise(&mut h, b));
    assert!(!fault(&mut h, "java.lang.Error: x".to_string()));
    assert_eq!(h.pending, Some(a));
    assert_eq!(printed(&h, Some(Value::Int(1)), true), None);
}

#[test]
fn finally_puts_the_exception_back() {
    let mut h = Host::new();
    set_catchable(&mut h, true);
    let a = exc_new(&mut h, "java.lang.Exception", Value::Undef);
    let b = exc_new(&mut h, "java.lang.Error", Value::Undef);
    raise(&mut h, a);
    exc_stash(&mut h);
    assert_eq!(h.pending, None);
    exc_unstash(&mut h);
    assert_eq!(h.pending, Some(a));
    exc_stash(&mut h);
    raise(&mut h, b);
    exc_unstash(&mut h);
    assert_eq!(h.pending, Some(b));
    exc_abort(&mut h);
    assert_eq!(h.pending, None);
    assert_eq!(h.error, Some("Exception in thread \"main\" java.lang.Error".to_string()));
}

#[test]
fn handlers_cut_the_stack() {
    assert_eq!(exc_cut(3, 10), 3);
    assert_eq!(exc_cut(12, 10), 10);
    assert_eq!(exc_cut(-1, 10), 0);
}

#[test]
fn prints_write_the_machine_text() {
    let mut h = Host::new();
    let s = text(&mut h, "hi");
    assert_eq!(printed(&h, Some(s), true), Some("hi\n".to_string()));
    assert_eq!(printed(&h, Some(s), false), Some("hi".to_string()));
    assert_eq!(printed(&h, None, true), Some("\n".to_string()));
    let x = num(&mut h, 1.5);
    let y = num(&mut h, 100.0);
    assert_eq!(vm_string(&h, x), 1.5f64.to_string());
    assert_eq!(vm_string(&h, y), 100.0f64.to_string());
    assert_eq!(vm_string(&h, Value::Int(3)), fusevm::Value::Int(3).to_str());
    assert_eq!(vm_string(&h, Value::Bool(true)), fusevm::Value::Bool(true).to_str());
    assert_eq!(vm_string(&h, Value::Undef), fusevm::Value::Undef.to_str());
    assert_eq!(vm_string(&h, Value::Obj(7)), fusevm::Value::Obj(7).to_str());
}

#[test]
fn foreign_calls() {
    assert!(ffi_block_fault("no rustc").contains("no rustc"));
    match ffi_called("f", Some(Ok(Value::Int(3)))) {
        Effect::Push(Reply::Value(v)) => assert_eq!(v, Value::Int(3)),
        other => panic!("{:?}", other),
    }
    match ffi_called("f", None) {
        Effect::FaultAnd(m, _) | Effect::Push(Reply::Fault(m)) => assert!(m.contains("f")),
        other => panic!("{:?}", other),
    }
}

#[test]
fn an_unknown_operation_pushes_null() {
    let mut h = Host::new();
    assert_eq!(operand_count(0, 3), 0);
    assert_eq!(op(&mut h, 999, 0, vec![]), Ok(Value::Undef));
}

#[test]
fn enum_constants_sort_by_declaration() {
    let mut h = Host::new();
    declare_enum(&mut h, "Color");
    let mut constants = Vec::new();
    for n in [2, 0, 1] {
        let o = construct(
            &mut h,
            Value::Undef,
            "Color\u{1f}c\u{1f}1\u{1f}i\u{1f}ordinal",
            &ints(&[n]),
        );
        constants.push(h.allocate(o));
    }
    let l = h.allocate(HeapObj::List(constants.clone()));
    match call(&mut h, l, "sorted", vec![]) {
        Ok(v) => assert_eq!(
            h.obj(v),
            Some(&HeapObj::List(vec![constants[1], constants[2], constants[0]]))
        ),
        Err(m) => panic!("{}", m),
    }
    assert_eq!(said(&mut h, constants[0], "compareTo", vec![constants[1]]), "2");
}
