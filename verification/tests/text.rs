use kotlinrs::builder::builder_cap;
use kotlinrs::search::{find, join, replace_all, replace_first, split, text_after, text_before};
use kotlinrs::strings::{kotlin_is_whitespace, kotlin_trim, utf16_index_of};
use kotlinrs::text::chars_of_str;
use kotlinrs::utf16::{units, utf16_to_string};
use kotlinrs::radix::{int_text, parse_long, to_radix};
use kotlinrs::value::{char_of, HeapObj};
use kotlinrs::display::kotlin_string;
use kotlinrs::format::{format_string, Formatted};
use kotlinrs::host::Host;
use kotlinrs::members::{finish, kt_method};
use kotlinrs::reply::{Answer, FloatOp, FloatTask, NumberText};
use kotlinrs::value::{Double, Value};

fn double(x: f64) -> Double {
    if x == 0.0 || !x.is_finite() {
        return Double { bits: x.to_bits(), digits: "0".to_string(), exp10: 0 };
    }
    let s = format!("{:e}", x.abs());
    match s.split_once('e') {
        Some((m, e)) => Double {
            bits: x.to_bits(),
            digits: m.replace('.', ""),
            exp10: e.parse().unwrap_or(0),
        },
        None => panic!("{}", s),
    }
}

fn num(h: &mut Host, x: f64) -> Value {
    h.double_value(double(x))
}

fn text(h: &mut Host, s: &str) -> Value {
    h.text_value(s.to_string())
}

fn float_of(h: &Host, v: Value) -> f64 {
    f64::from_bits(h.to_double(v))
}

fn computed(h: &mut Host, t: FloatTask) -> Value {
    let a = float_of(h, t.a);
    let b = float_of(h, t.b);
    let r = match t.op {
        FloatOp::Add => a + b,
        FloatOp::Sub => a - b,
        FloatOp::Mul => a * b,
        FloatOp::Div => a / b,
        FloatOp::Rem => a % b,
        FloatOp::Pow => a.powf(b),
        FloatOp::Neg => -a,
        FloatOp::Abs => a.abs(),
        FloatOp::Sqrt => a.sqrt(),
        FloatOp::Floor => a.floor(),
        FloatOp::Ceil => a.ceil(),
        FloatOp::Round => a.round_ties_even(),
        FloatOp::Convert => a,
        FloatOp::Lt => return Value::Bool(a < b),
        FloatOp::Gt => return Value::Bool(a > b),
        FloatOp::Le => return Value::Bool(a <= b),
        FloatOp::Ge => return Value::Bool(a >= b),
        FloatOp::Eq => return Value::Bool(a == b),
        FloatOp::Ne => return Value::Bool(a != b),
    };
    num(h, r)
}

fn formatted(h: &Host, fmt: &str, args: &Vec<Value>) -> Result<String, String> {
    let mut log: Vec<String> = Vec::new();
    loop {
        match format_string(h, fmt, args, &log) {
            Formatted::Done(s) => return Ok(s),
            Formatted::Fault(m) => return Err(m),
            Formatted::Render(v, prec) => {
                log.push(format!("{:.*e}", prec as usize, float_of(h, v)));
            }
        }
    }
}

fn answered(h: &mut Host, a: Answer) -> Result<Value, String> {
    match a {
        Answer::Value(v) => Ok(v),
        Answer::Fault(m) => Err(m),
        Answer::Compute(t) => Ok(computed(h, t)),
        Answer::Sum(vs) => {
            let total = vs.iter().map(|v| float_of(h, *v)).sum::<f64>();
            Ok(num(h, total))
        }
        Answer::Average(vs) => {
            let total = vs.iter().map(|v| float_of(h, *v)).sum::<f64>();
            let n = vs.len() as f64;
            Ok(num(h, total / n))
        }
        Answer::Read(NumberText::Decimal { negative, body }) => {
            let x: f64 = body.parse().unwrap_or(f64::NAN);
            Ok(num(h, if negative { -x } else { x }))
        }
        Answer::Read(NumberText::Infinity { negative }) => {
            Ok(num(h, if negative { f64::NEG_INFINITY } else { f64::INFINITY }))
        }
        Answer::Read(NumberText::NotANumber) => Ok(num(h, f64::NAN)),
        Answer::Format(fmt, args) => match formatted(h, fmt.as_str(), &args) {
            Ok(s) => Ok(h.text_value(s)),
            Err(m) => Err(m),
        },
        other => panic!("{:?}", other),
    }
}

fn call(h: &mut Host, recv: Value, name: &str, args: Vec<Value>) -> Result<Value, String> {
    let reply = match kt_method(h, recv, name, &args, &Vec::new()) {
        Ok(r) => r,
        Err(stop) => panic!("{:?}", stop),
    };
    let a = finish(h, recv, name, reply);
    answered(h, a)
}

fn said(h: &mut Host, recv: Value, name: &str, args: Vec<Value>) -> String {
    match call(h, recv, name, args) {
        Ok(v) => kotlin_string(h, v),
        Err(m) => format!("! {}", m),
    }
}

fn on_text(s: &str, name: &str, args: &[i64]) -> String {
    let mut h = Host::new();
    let recv = text(&mut h, s);
    said(&mut h, recv, name, args.iter().map(|n| Value::Int(*n)).collect())
}

fn with_texts(s: &str, name: &str, args: &[&str]) -> String {
    let mut h = Host::new();
    let recv = text(&mut h, s);
    let given: Vec<Value> = args.iter().map(|a| h.text_value(a.to_string())).collect();
    said(&mut h, recv, name, given)
}

fn on_char(c: char, name: &str, args: Vec<Value>) -> String {
    let mut h = Host::new();
    said(&mut h, char_of(c as i64), name, args)
}

#[test]
fn lengths_and_cases() {
    assert_eq!(on_text("hello", "length", &[]), "5");
    assert_eq!(on_text("café", "length", &[]), "4");
    assert_eq!(on_text("a😀b", "length", &[]), "4");
    assert_eq!(on_text("hello", "uppercase", &[]), "HELLO");
    assert_eq!(on_text("HeLLo", "lowercase", &[]), "hello");
    assert_eq!(on_text("straße", "uppercase", &[]), "STRASSE");
    assert_eq!(on_text("", "isEmpty", &[]), "true");
    assert_eq!(on_text("x", "isNotEmpty", &[]), "true");
    assert_eq!(on_text("  ", "isBlank", &[]), "true");
}

#[test]
fn trimming() {
    assert_eq!(on_text("  a b\t", "trim", &[]), "a b");
    assert_eq!(on_text("  a b ", "trimStart", &[]), "a b ");
    assert_eq!(on_text("  a b ", "trimEnd", &[]), "  a b");
    let once = kotlin_trim("\u{00a0} x \u{2003}", true, true);
    assert_eq!(once, "x");
    assert_eq!(kotlin_trim(once.as_str(), true, true), once);
    assert!(kotlin_is_whitespace('\u{00a0}'));
    assert!(!kotlin_is_whitespace('x'));
}

#[test]
fn splitting_and_joining() {
    assert_eq!(with_texts("a,b,,c", "split", &[","]), "[a, b, , c]");
    assert_eq!(with_texts("a,b;c", "split", &[",", ";"]), "[a, b, c]");
    assert_eq!(on_text("a\nb\r\nc", "lines", &[]), "[a, b, c]");
    let parts = split(&chars_of_str("a--b----c"), &chars_of_str("--"));
    assert_eq!(parts, vec!["a", "b", "", "c"]);
    assert_eq!(join(&parts, "--"), "a--b----c");
}

#[test]
fn taking_and_dropping() {
    assert_eq!(on_text("hello", "take", &[2]), "he");
    assert_eq!(on_text("hello", "drop", &[2]), "llo");
    assert_eq!(on_text("hello", "take", &[99]), "hello");
    assert_eq!(on_text("hello", "takeLast", &[2]), "lo");
    assert_eq!(on_text("hello", "dropLast", &[2]), "hel");
    assert_eq!(on_text("hello", "reversed", &[]), "olleh");
    assert_eq!(on_text("hello", "first", &[]), "h");
    assert_eq!(on_text("hello", "last", &[]), "o");
    assert_eq!(
        on_text("hello", "take", &[-1]),
        "! java.lang.IllegalArgumentException: Requested character count -1 is less than zero."
    );
}

#[test]
fn substrings() {
    assert_eq!(on_text("hello", "substring", &[1]), "ello");
    assert_eq!(on_text("hello", "substring", &[1, 3]), "el");
    assert_eq!(
        on_text("abc", "substring", &[2, 9]),
        "! java.lang.StringIndexOutOfBoundsException: Range [2, 9) out of bounds for length 3"
    );
    assert_eq!(with_texts("a.b.c", "substringBefore", &["."]), "a");
    assert_eq!(with_texts("a.b.c", "substringAfter", &["."]), "b.c");
    assert_eq!(with_texts("abc", "substringAfter", &["."]), "abc");
    assert_eq!(with_texts("abc", "removePrefix", &["ab"]), "c");
    assert_eq!(with_texts("abc", "removeSuffix", &["bc"]), "a");
    assert_eq!(text_before("k=v", "="), "k");
    assert_eq!(text_after("k=v", "="), "v");
    assert_eq!(format!("{}={}", text_before("k=v=w", "="), text_after("k=v=w", "=")), "k=v=w");
}

#[test]
fn searching() {
    assert_eq!(with_texts("banana", "indexOf", &["an"]), "1");
    assert_eq!(with_texts("banana", "lastIndexOf", &["an"]), "3");
    assert_eq!(with_texts("banana", "indexOf", &["x"]), "-1");
    assert_eq!(with_texts("abc", "lastIndexOf", &[""]), "2");
    assert_eq!(with_texts("banana", "contains", &["nan"]), "true");
    assert_eq!(with_texts("banana", "startsWith", &["ba"]), "true");
    assert_eq!(with_texts("banana", "endsWith", &["na"]), "true");
    assert_eq!(find(&chars_of_str("aXbX"), &chars_of_str("X"), 2), Some(3));
    assert_eq!(find(&chars_of_str("aXbX"), &chars_of_str("Y"), 0), None);
    assert_eq!(utf16_index_of("a😀b", "b"), Some(3));
    let mut h = Host::new();
    let s = text(&mut h, "banana");
    let an = text(&mut h, "an");
    assert_eq!(said(&mut h, s, "indexOf", vec![an, Value::Int(2)]), "3");
    assert_eq!(said(&mut h, s, "startsWith", vec![an, Value::Int(1)]), "true");
}

#[test]
fn replacing() {
    assert_eq!(with_texts("banana", "replace", &["an", "AN"]), "bANANa");
    assert_eq!(with_texts("banana", "replaceFirst", &["an", "AN"]), "bANana");
    assert_eq!(replace_all("aaa", "aa", "b"), "ba");
    assert_eq!(replace_first("aaa", "b", "c"), "aaa");
}

#[test]
fn comparing_texts() {
    assert_eq!(with_texts("abc", "compareTo", &["abd"]), "-1");
    assert_eq!(with_texts("abc", "compareTo", &["ab"]), "1");
    assert_eq!(with_texts("a", "compareTo", &["z"]), "-25");
    let mut h = Host::new();
    let a = text(&mut h, "ABC");
    let b = text(&mut h, "abc");
    assert_eq!(said(&mut h, a, "equals", vec![b]), "false");
    assert_eq!(said(&mut h, a, "equals", vec![b, Value::Bool(true)]), "true");
    assert_eq!(said(&mut h, a, "compareTo", vec![b, Value::Bool(true)]), "0");
    assert_eq!(on_text("hello", "hashCode", &[]), "99162322");
    assert_eq!(on_text("", "hashCode", &[]), "0");
}

#[test]
fn padding_and_repeating() {
    let mut h = Host::new();
    let s = text(&mut h, "7");
    let zero = char_of('0' as i64);
    assert_eq!(said(&mut h, s, "padStart", vec![Value::Int(3), zero]), "007");
    assert_eq!(said(&mut h, s, "padEnd", vec![Value::Int(3)]), "7  ");
    assert_eq!(on_text("ab", "repeat", &[3]), "ababab");
    assert_eq!(on_text("abc", "get", &[1]), "b");
    assert_eq!(
        on_text("abc", "get", &[3]),
        "! java.lang.StringIndexOutOfBoundsException: Index 3 out of bounds for length 3"
    );
}

#[test]
fn reading_integers() {
    assert_eq!(on_text("42", "toInt", &[]), "42");
    assert_eq!(on_text("-7", "toLong", &[]), "-7");
    assert_eq!(on_text("ff", "toInt", &[16]), "255");
    assert_eq!(on_text("x", "toIntOrNull", &[]), "null");
    assert_eq!(on_text("2147483648", "toIntOrNull", &[]), "null");
    assert_eq!(on_text("2147483648", "toLong", &[]), "2147483648");
    assert_eq!(
        on_text("x", "toInt", &[]),
        "! java.lang.NumberFormatException: For input string: \"x\""
    );
    assert_eq!(
        on_text("1", "toIntOrNull", &[99]),
        "! java.lang.IllegalArgumentException: radix 99 was not in valid range 2..36"
    );
}

#[test]
fn reading_doubles() {
    assert_eq!(on_text("1.5", "toDouble", &[]), "1.5");
    assert_eq!(on_text("-1e3", "toDouble", &[]), "-1000.0");
    assert_eq!(on_text("NaN", "toDouble", &[]), "NaN");
    assert_eq!(on_text("-Infinity", "toDouble", &[]), "-Infinity");
    assert_eq!(on_text("1.5d", "toDouble", &[]), "1.5");
    assert_eq!(on_text("+5", "toDouble", &[]), "5.0");
    for bad in ["Infinityd", "NaNf", "--5", "+-5", "-+5", "+"] {
        assert_eq!(on_text(bad, "toDoubleOrNull", &[]), "null", "{}", bad);
    }
    assert_eq!(on_text("x", "toDoubleOrNull", &[]), "null");
    assert_eq!(
        on_text("Infinityd", "toDouble", &[]),
        "! java.lang.NumberFormatException: For input string: \"Infinityd\""
    );
    assert_eq!(
        on_text("x", "toDouble", &[]),
        "! java.lang.NumberFormatException: For input string: \"x\""
    );
}

#[test]
fn integers_in_a_radix() {
    assert_eq!(to_radix(255, 16), "ff");
    assert_eq!(to_radix(-255, 16), "-ff");
    assert_eq!(to_radix(0, 2), "0");
    assert_eq!(int_text(i64::MIN), "-9223372036854775808");
    for n in [0, 1, -1, 35, 36, 123456789, i64::MAX, i64::MIN] {
        for radix in [2, 8, 10, 16, 36] {
            assert_eq!(parse_long(to_radix(n, radix).as_str(), radix), Some(n));
        }
    }
    assert_eq!(parse_long("9223372036854775808", 10), None);
    assert_eq!(parse_long("+5", 10), Some(5));
    assert_eq!(parse_long("", 10), None);
}

#[test]
fn formatting() {
    let mut h = Host::new();
    let name = text(&mut h, "kt");
    let half = num(&mut h, 2.5);
    let pi = num(&mut h, 3.14159);
    let big = num(&mut h, 12345.678);
    let f = |h: &Host, fmt: &str, args: Vec<Value>| match formatted(h, fmt, &args) {
        Ok(s) => s,
        Err(m) => format!("! {}", m),
    };
    assert_eq!(f(&h, "%d items", vec![Value::Int(3)]), "3 items");
    assert_eq!(f(&h, "%5d|%-5d|%05d", vec![Value::Int(42), Value::Int(42), Value::Int(42)]), "   42|42   |00042");
    assert_eq!(f(&h, "%+d", vec![Value::Int(5)]), "+5");
    assert_eq!(f(&h, "%,d", vec![Value::Int(1234567)]), "1,234,567");
    assert_eq!(f(&h, "%s/%10s/%-4s|", vec![name, name, name]), "kt/        kt/kt  |");
    assert_eq!(f(&h, "%.0f", vec![half]), "3");
    assert_eq!(f(&h, "%.2f", vec![pi]), "3.14");
    assert_eq!(f(&h, "%x %X %o", vec![Value::Int(255), Value::Int(255), Value::Int(8)]), "ff FF 10");
    assert_eq!(f(&h, "%c%b%%", vec![char_of('z' as i64), Value::Bool(true)]), "ztrue%");
    assert_eq!(f(&h, "%e", vec![big]), "1.234568e+04");
    assert_eq!(f(&h, "%d", vec![half]), "! java.util.IllegalFormatConversionException: d != java.lang.Double");
    assert_eq!(f(&h, "%q", vec![half]), "! java.util.UnknownFormatConversionException: Conversion = 'q'");
    assert_eq!(f(&h, "%d", vec![]), "! java.util.MissingFormatArgumentException: Format specifier '%d'");
}

#[test]
fn format_is_a_member() {
    let mut h = Host::new();
    let s = text(&mut h, "%.0f!");
    let half = num(&mut h, 2.5);
    assert_eq!(said(&mut h, s, "format", vec![half]), "3!");
}

#[test]
fn char_members() {
    assert_eq!(on_char('7', "isDigit", vec![]), "true");
    assert_eq!(on_char('x', "isLetter", vec![]), "true");
    assert_eq!(on_char('_', "isLetterOrDigit", vec![]), "false");
    assert_eq!(on_char(' ', "isWhitespace", vec![]), "true");
    assert_eq!(on_char('X', "isUpperCase", vec![]), "true");
    assert_eq!(on_char('x', "isLowerCase", vec![]), "true");
    assert_eq!(on_char('x', "uppercaseChar", vec![]), "X");
    assert_eq!(on_char('X', "lowercaseChar", vec![]), "x");
    assert_eq!(on_char('ß', "uppercase", vec![]), "SS");
    assert_eq!(on_char('X', "lowercase", vec![]), "x");
    assert_eq!(on_char('7', "digitToInt", vec![]), "7");
    assert_eq!(on_char('A', "code", vec![]), "65");
    assert_eq!(on_char('A', "hashCode", vec![]), "65");
    assert_eq!(on_char('A', "plus", vec![Value::Int(1)]), "B");
    assert_eq!(on_char('D', "minus", vec![char_of('A' as i64)]), "3");
    assert_eq!(on_char('a', "toString", vec![]), "a");
}

fn builder(h: &mut Host, s: &str) -> Value {
    let t = h.text_value(s.to_string());
    let o = kotlinrs::builder::new_builder(h, Some(t));
    h.allocate(o)
}

#[test]
fn a_builder_counts_utf16_units() {
    let mut h = Host::new();
    let b = builder(&mut h, "a😀b");
    assert_eq!(said(&mut h, b, "length", vec![]), "4");
    assert_eq!(said(&mut h, b, "capacity", vec![]), "20");
    assert_eq!(said(&mut h, b, "reverse", vec![]), "b😀a");
}

#[test]
fn builder_members_answer_the_receiver() {
    let mut h = Host::new();
    let b = builder(&mut h, "abc");
    let d = text(&mut h, "d");
    assert_eq!(call(&mut h, b, "append", vec![d]), Ok(b));
    assert_eq!(call(&mut h, b, "insert", vec![Value::Int(0), Value::Int(1)]), Ok(b));
    assert_eq!(said(&mut h, b, "toString", vec![]), "1abcd");
    assert_eq!(call(&mut h, b, "deleteCharAt", vec![Value::Int(0)]), Ok(b));
    assert_eq!(call(&mut h, b, "delete", vec![Value::Int(1), Value::Int(3)]), Ok(b));
    assert_eq!(said(&mut h, b, "toString", vec![]), "ad");
    assert_eq!(said(&mut h, b, "uppercase", vec![]), "AD");
    assert_eq!(said(&mut h, b, "setLength", vec![Value::Int(3)]), "null");
    assert_eq!(said(&mut h, b, "toString", vec![]), "ad\0");
    assert_eq!(call(&mut h, b, "clear", vec![]), Ok(b));
    assert_eq!(said(&mut h, b, "length", vec![]), "0");
}

#[test]
fn builder_capacity_grows_by_doubling() {
    assert_eq!(builder_cap(16, 17), 34);
    assert_eq!(builder_cap(16, 100), 100);
    assert_eq!(builder_cap(16, 16), 16);
    let mut h = Host::new();
    let empty = kotlinrs::builder::new_builder(&h, None);
    let b = h.allocate(empty);
    assert_eq!(said(&mut h, b, "capacity", vec![]), "16");
    let long = text(&mut h, "abcdefghijklmnopq");
    assert_eq!(call(&mut h, b, "append", vec![long]), Ok(b));
    assert_eq!(said(&mut h, b, "capacity", vec![]), "34");
}

#[test]
fn utf16_round_trips() {
    for s in ["", "abc", "café", "a😀b", "\u{10ffff}"] {
        assert_eq!(utf16_to_string(&units(s)), s);
    }
    assert_eq!(units("😀"), vec![0xd83d, 0xde00]);
    assert_eq!(utf16_to_string(&vec![0xd83d]), "?");
}

#[test]
fn text_as_characters() {
    assert_eq!(on_text("abc", "toList", &[]), "[a, b, c]");
    assert_eq!(on_text("abcde", "chunked", &[2]), "[ab, cd, e]");
    assert_eq!(on_text("abcd", "windowed", &[3]), "[abc, bcd]");
    let mut h = Host::new();
    let s = text(&mut h, "ab");
    match call(&mut h, s, "toCharArray", vec![]) {
        Ok(v) => match h.obj(v) {
            Some(HeapObj::Array { items, desc }) => {
                assert_eq!(items.len(), 2);
                assert_eq!(items[0], char_of('a' as i64));
                assert_eq!(desc, "[C");
            }
            other => panic!("{:?}", other),
        },
        Err(m) => panic!("{}", m),
    }
}

#[test]
fn an_unknown_member_is_unresolved() {
    assert_eq!(on_text("abc", "nope", &[]), "! unresolved reference: nope on String");
}
