//! `String.format`: the conversions of `java.util.Formatter` that Kotlin
//! programs reach for.
//!
//! The digits of a number in scientific notation come from the machine:
//! formatting is a function of those given so far, and asks for the next.
use crate::display::{char_string, kotlin_string};
use crate::double::format_fixed;
use crate::host::Host;
use crate::radix::{digits_between, int_text, unsigned_to_radix};
use crate::strings::{repeat, to_upper};
use crate::text::{chars_of_str, concat2, concat3, concat4, push_char, string_of};
use crate::types::{jvm_class, obj_label, runtime_jvm_class};
use crate::value::{is_char, Double, Value};
use vstd::prelude::*;

verus! {

use crate::display::{code_text, text_of};
use crate::double::fixed_text;
use crate::host::HostView;
use crate::lexer::digits_number;
use crate::numtext::{char_at, digits_stop};
use crate::radix::{decimal, nat_digits};
use crate::search::texts_view;
use crate::strings::{repeated, upper_case};
use crate::types::{boxed_class, label_of, object_class};
use crate::value::{code_of, DoubleView};

// ── Directives ──────────────────────────────────────────────────────────────

/// A format directive: its flags, width and precision, its conversion, and the
/// position behind it.
#[verifier::ext_equal]
pub struct DirectiveView {
    pub left: bool,
    pub zero: bool,
    pub plus: bool,
    pub space: bool,
    pub group: bool,
    pub width: int,
    pub prec: Option<int>,
    pub conv: char,
    pub next: int,
}

struct Directive {
    left: bool,
    zero: bool,
    plus: bool,
    space: bool,
    group: bool,
    width: u32,
    prec: Option<u32>,
    conv: char,
    next: usize,
}

impl View for Directive {
    type V = DirectiveView;

    closed spec fn view(&self) -> DirectiveView {
        DirectiveView {
            left: self.left,
            zero: self.zero,
            plus: self.plus,
            space: self.space,
            group: self.group,
            width: self.width as int,
            prec: match self.prec {
                Some(p) => Some(p as int),
                None => None,
            },
            conv: self.conv,
            next: self.next as int,
        }
    }
}

pub open spec fn is_flag(c: char) -> bool {
    c == '-' || c == '0' || c == '+' || c == ' ' || c == ','
}

/// The first position from `p` on that holds no flag.
pub open spec fn flags_stop(s: Seq<char>, p: int) -> int
    decreases s.len() - p,
{
    if 0 <= p < s.len() && is_flag(s[p]) {
        flags_stop(s, p + 1)
    } else {
        p
    }
}

/// Whether the flag `c` stands between two positions.
pub open spec fn has_flag(s: Seq<char>, from: int, to: int, c: char) -> bool {
    s.subrange(from, to).contains(c)
}

/// The number that the digits between two positions write: 0 for none, nothing
/// for one that is no `Int`.
pub open spec fn span_number(s: Seq<char>, from: int, to: int) -> Option<int> {
    let n = digits_number(s.subrange(from, to), 10);
    if from == to {
        Some(0)
    } else if n <= i32::MAX {
        Some(n)
    } else {
        None
    }
}

/// The fault of a conversion that the formatter does not know.
pub open spec fn unknown_conversion_message(c: char) -> Seq<char> {
    "java.util.UnknownFormatConversionException: Conversion = '"@ + seq![c] + "'"@
}

/// The fault of a width or precision that is no `Int`.
pub open spec fn illegal_span_message(kind: Seq<char>) -> Seq<char> {
    "java.util.IllegalFormat"@ + kind + "Exception: -2147483648"@
}

/// The directive whose `%` stands before position `p`, or a fault. A directive
/// that runs off the end is named by its first character.
pub open spec fn directive_at(s: Seq<char>, p: int) -> Result<DirectiveView, Seq<char>> {
    let f = flags_stop(s, p);
    let w = digits_stop(s, f);
    match span_number(s, f, w) {
        None => Err(illegal_span_message("Width"@)),
        Some(width) => {
            let dotted = char_at(s, w) == '.';
            let q = if dotted {
                digits_stop(s, w + 1)
            } else {
                w
            };
            match span_number(
                s,
                if dotted {
                    w + 1
                } else {
                    w
                },
                q,
            ) {
                None => Err(illegal_span_message("Precision"@)),
                Some(prec) => if q >= s.len() {
                    Err(
                        unknown_conversion_message(
                            if p < s.len() {
                                s[p]
                            } else {
                                '%'
                            },
                        ),
                    )
                } else {
                    Ok(
                        DirectiveView {
                            left: has_flag(s, p, f, '-'),
                            zero: has_flag(s, p, f, '0'),
                            plus: has_flag(s, p, f, '+'),
                            space: has_flag(s, p, f, ' '),
                            group: has_flag(s, p, f, ','),
                            width,
                            prec: if dotted {
                                Some(prec)
                            } else {
                                None
                            },
                            conv: s[q],
                            next: q + 1,
                        },
                    )
                },
            }
        },
    }
}

pub proof fn lemma_flags_stop(s: Seq<char>, p: int)
    requires
        0 <= p <= s.len(),
    ensures
        p <= flags_stop(s, p) <= s.len(),
    decreases s.len() - p,
{
    if p < s.len() && is_flag(s[p]) {
        lemma_flags_stop(s, p + 1);
    }
}

pub proof fn lemma_directive(s: Seq<char>, p: int)
    requires
        0 <= p <= s.len(),
    ensures
        directive_at(s, p) matches Ok(d) ==> p < d.next <= s.len(),
{
    lemma_flags_stop(s, p);
    let f = flags_stop(s, p);
    crate::numtext::lemma_digits_stop(s, f);
    let w = digits_stop(s, f);
    if char_at(s, w) == '.' {
        crate::numtext::lemma_digits_stop(s, w + 1);
    }
}

fn find_flags(v: &Vec<char>, p: usize) -> (f: usize)
    requires
        p <= v@.len(),
    ensures
        f == flags_stop(v@, p as int),
        p <= f <= v@.len(),
{
    let mut f: usize = p;
    while f < v.len() && (v[f] == '-' || v[f] == '0' || v[f] == '+' || v[f] == ' ' || v[f] == ',')
        invariant
            p <= f <= v@.len(),
            flags_stop(v@, f as int) == flags_stop(v@, p as int),
        decreases v.len() - f,
    {
        f = f + 1;
    }
    f
}

fn flag(v: &Vec<char>, from: usize, to: usize, c: char) -> (r: bool)
    requires
        from <= to <= v@.len(),
    ensures
        r == has_flag(v@, from as int, to as int, c),
{
    let ghost s = v@.subrange(from as int, to as int);
    let mut i: usize = from;
    while i < to
        invariant
            from <= i <= to <= v@.len(),
            s == v@.subrange(from as int, to as int),
            forall|k: int| 0 <= k < i - from ==> #[trigger] s[k] != c,
        decreases to - i,
    {
        if v[i] == c {
            assert(s[i - from] == c);
            return true;
        }
        i = i + 1;
    }
    false
}

/// The fault of a conversion that the formatter does not know.
pub fn unknown_conversion(c: char) -> (s: String)
    ensures
        s@ == unknown_conversion_message(c),
{
    let mut one: String = String::new();
    push_char(&mut one, c);
    assert(one@ =~= seq![c]);
    concat3("java.util.UnknownFormatConversionException: Conversion = '", one.as_str(), "'")
}

/// The fault of a width or precision that is no `Int`.
pub fn illegal_span(kind: &str) -> (s: String)
    ensures
        s@ == illegal_span_message(kind@),
{
    concat3("java.util.IllegalFormat", kind, "Exception: -2147483648")
}

fn span(v: &Vec<char>, from: usize, to: usize) -> (r: Option<u32>)
    requires
        from <= to <= v@.len(),
        forall|i: int| from <= i < to ==> '0' <= #[trigger] v@[i] <= '9',
    ensures
        match r {
            Some(n) => span_number(v@, from as int, to as int) == Some(n as int) && n <= i32::MAX,
            None => span_number(v@, from as int, to as int) is None,
        },
{
    if from == to {
        return Some(0);
    }
    match digits_between(v, from, to, 0x7fff_ffff) {
        Some(n) => Some(n as u32),
        None => None,
    }
}

fn find_digits(v: &Vec<char>, p: usize) -> (r: usize)
    requires
        p <= v@.len(),
    ensures
        r == digits_stop(v@, p as int),
        p <= r <= v@.len(),
        forall|i: int| p <= i < r ==> '0' <= #[trigger] v@[i] <= '9',
{
    let mut r: usize = p;
    while r < v.len() && '0' <= v[r] && v[r] <= '9'
        invariant
            p <= r <= v@.len(),
            digits_stop(v@, r as int) == digits_stop(v@, p as int),
            forall|i: int| p <= i < r ==> '0' <= #[trigger] v@[i] <= '9',
        decreases v.len() - r,
    {
        r = r + 1;
    }
    r
}

fn read_directive(v: &Vec<char>, p: usize) -> (r: Result<Directive, String>)
    requires
        p <= v@.len(),
    ensures
        match r {
            Ok(d) => directive_at(v@, p as int) == Ok::<DirectiveView, Seq<char>>(d@) && p
                < d@.next <= v@.len(),
            Err(m) => directive_at(v@, p as int) == Err::<DirectiveView, Seq<char>>(m@),
        },
{
    proof {
        lemma_directive(v@, p as int);
    }
    let f: usize = find_flags(v, p);
    let w: usize = find_digits(v, f);
    let width: u32 = match span(v, f, w) {
        Some(n) => n,
        None => {
            return Err(illegal_span("Width"));
        },
    };
    let dotted: bool = w < v.len() && v[w] == '.';
    let from: usize = if dotted {
        w + 1
    } else {
        w
    };
    let q: usize = if dotted {
        find_digits(v, from)
    } else {
        w
    };
    assert(dotted == (char_at(v@, w as int) == '.'));
    let prec: u32 = match span(v, from, q) {
        Some(n) => n,
        None => {
            return Err(illegal_span("Precision"));
        },
    };
    if q >= v.len() {
        let c: char = if p < v.len() {
            v[p]
        } else {
            '%'
        };
        return Err(unknown_conversion(c));
    }
    Ok(
        Directive {
            left: flag(v, p, f, '-'),
            zero: flag(v, p, f, '0'),
            plus: flag(v, p, f, '+'),
            space: flag(v, p, f, ' '),
            group: flag(v, p, f, ','),
            width,
            prec: if dotted {
                Some(prec)
            } else {
                None
            },
            conv: v[q],
            next: q + 1,
        },
    )
}

// ── Arguments ───────────────────────────────────────────────────────────────

/// The class an argument would be boxed to.
pub open spec fn argument_class(h: HostView, v: Value) -> Seq<char> {
    if code_of(v) is Some {
        "java.lang.Character"@
    } else {
        match v {
            Value::Int(_) => "java.lang.Integer"@,
            Value::Float(_) => "java.lang.Double"@,
            Value::Bool(_) => "java.lang.Boolean"@,
            Value::Str(_) => "java.lang.String"@,
            _ => match object_class(h, v) {
                Some((n, _)) => n,
                None => match boxed_class(label_of(h, v)) {
                    Some(n) => n,
                    None => label_of(h, v),
                },
            },
        }
    }
}

/// Whether a conversion accepts an argument. Null is accepted everywhere.
pub open spec fn accepts(conv: char, arg: Value) -> bool {
    if arg == Value::Undef {
        true
    } else if conv == 'd' || conv == 'x' || conv == 'X' || conv == 'o' {
        arg is Int
    } else if conv == 'f' || conv == 'e' || conv == 'E' {
        arg is Float
    } else if conv == 'c' {
        code_of(arg) is Some || arg is Int
    } else {
        true
    }
}

/// The class an argument would be boxed to.
pub fn format_arg_class(h: &Host, v: Value) -> (s: String)
    ensures
        s@ == argument_class(h@, v),
{
    if is_char(&v) {
        return "java.lang.Character".to_owned();
    }
    match v {
        Value::Int(_) => "java.lang.Integer".to_owned(),
        Value::Float(_) => "java.lang.Double".to_owned(),
        Value::Bool(_) => "java.lang.Boolean".to_owned(),
        Value::Str(_) => "java.lang.String".to_owned(),
        _ => match runtime_jvm_class(h, v) {
            Some((n, _)) => n,
            None => {
                let label: String = obj_label(h, v);
                match jvm_class(label.as_str()) {
                    Some(n) => n.to_owned(),
                    None => label,
                }
            },
        },
    }
}

/// Whether a conversion accepts an argument.
pub fn conversion_accepts(conv: char, arg: Value) -> (r: bool)
    ensures
        r == accepts(conv, arg),
{
    if let Value::Undef = arg {
        return true;
    }
    if conv == 'd' || conv == 'x' || conv == 'X' || conv == 'o' {
        matches!(arg, Value::Int(_))
    } else if conv == 'f' || conv == 'e' || conv == 'E' {
        matches!(arg, Value::Float(_))
    } else if conv == 'c' {
        is_char(&arg) || matches!(arg, Value::Int(_))
    } else {
        true
    }
}

// ── Bodies ──────────────────────────────────────────────────────────────────

/// Digits in groups of three from the end, with commas between.
pub open spec fn grouped_digits(d: Seq<char>) -> Seq<char>
    decreases d.len(),
{
    if d.len() <= 3 {
        d
    } else {
        grouped_digits(d.take(d.len() - 3)) + seq![','] + d.skip(d.len() - 3)
    }
}

/// A rendered number with its integer part in groups of three.
pub open spec fn thousands(body: Seq<char>) -> Seq<char> {
    if body.len() > 0 && body[0] == '-' {
        seq!['-'] + thousands_of(body.skip(1))
    } else {
        thousands_of(body)
    }
}

/// An unsigned rendered number with its integer part in groups of three.
pub open spec fn thousands_of(s: Seq<char>) -> Seq<char> {
    let p = crate::numtext::point_mark(s, 0);
    grouped_digits(s.take(p)) + s.skip(p)
}

/// `n` copies of a character.
pub open spec fn copies(c: char, n: int) -> Seq<char> {
    repeated(seq![c], n)
}

pub open spec fn is_numeric_conversion(c: char) -> bool {
    c == 'd' || c == 'f' || c == 'e' || c == 'E' || c == 'x' || c == 'X' || c == 'o'
}

/// `body` widened to `width`: spaces behind it, zeros behind its sign, or spaces
/// before it.
pub open spec fn padded(body: Seq<char>, width: int, left: bool, zero: bool, conv: char) -> Seq<char> {
    let n = width - body.len();
    if n <= 0 {
        body
    } else if left {
        body + copies(' ', n)
    } else if zero && is_numeric_conversion(conv) {
        let at: int = if body.len() > 0 && (body[0] == '-' || body[0] == '+' || body[0] == ' ') {
            1
        } else {
            0
        };
        body.take(at) + copies('0', n) + body.skip(at)
    } else {
        copies(' ', n) + body
    }
}

/// An exponent of at least two digits behind its sign.
pub open spec fn exponent_text(x: Seq<char>) -> Seq<char> {
    let negative = x.len() > 0 && x[0] == '-';
    let digits = if negative {
        x.skip(1)
    } else {
        x
    };
    seq![
        if negative {
            '-'
        } else {
            '+'
        },
    ] + copies('0', 2 - digits.len()) + digits
}

/// The position of the first `e`, or the length.
pub open spec fn exponent_at(s: Seq<char>, i: int) -> int
    decreases s.len() - i,
{
    if 0 <= i < s.len() && s[i] != 'e' {
        exponent_at(s, i + 1)
    } else {
        i
    }
}

/// The machine's scientific notation (`1.5e2`) as the JVM writes it
/// (`1.5e+02`).
pub open spec fn scientific(s: Seq<char>) -> Seq<char> {
    let k = exponent_at(s, 0);
    if k < s.len() {
        s.take(k) + seq!['e'] + exponent_text(s.skip(k + 1))
    } else {
        s
    }
}

/// A hexadecimal digit in upper case.
pub open spec fn upper_digit(c: char) -> char {
    if 'a' <= c <= 'f' {
        ((c as int) - 32) as char
    } else {
        c
    }
}

/// What a conversion needs or gives.
#[verifier::ext_equal]
pub enum BodyView {
    Text(Seq<char>),
    /// The number in scientific notation with so many fraction digits.
    Render(Value, int),
    Fault(Seq<char>),
}

/// The body of a conversion of `arg`; `shown` is the next text the machine has
/// given.
pub open spec fn body_of(h: HostView, d: DirectiveView, arg: Value, shown: Option<Seq<char>>) -> BodyView {
    let c = d.conv;
    let digits = match d.prec {
        Some(p) => p,
        None => 6,
    };
    if c == '%' {
        BodyView::Text(seq!['%'])
    } else if c == 'n' {
        BodyView::Text(seq!['\n'])
    } else if c == 'd' {
        BodyView::Text(decimal(h.to_int(arg)))
    } else if c == 'x' {
        BodyView::Text(nat_digits((h.to_int(arg) as i64) as u64 as nat, 16))
    } else if c == 'X' {
        BodyView::Text(
            nat_digits((h.to_int(arg) as i64) as u64 as nat, 16).map_values(
                |x: char| upper_digit(x),
            ),
        )
    } else if c == 'o' {
        BodyView::Text(nat_digits((h.to_int(arg) as i64) as u64 as nat, 8))
    } else if c == 'f' {
        BodyView::Text(fixed_text(number_of_value(h, arg), digits))
    } else if c == 'e' || c == 'E' {
        match shown {
            None => BodyView::Render(arg, digits),
            Some(s) => BodyView::Text(
                if c == 'E' {
                    upper_case(scientific(s))
                } else {
                    scientific(s)
                },
            ),
        }
    } else if c == 'c' {
        BodyView::Text(code_text(((h.num_of(arg) as i64) as u32) as int))
    } else if c == 'b' {
        BodyView::Text(
            match arg {
                Value::Undef => "false"@,
                Value::Bool(b) => if b {
                    "true"@
                } else {
                    "false"@
                },
                _ => "true"@,
            },
        )
    } else if c == 's' || c == 'S' {
        let t = text_of(h, arg);
        let cut = match d.prec {
            Some(p) => if p < t.len() {
                t.take(p)
            } else {
                t
            },
            None => t,
        };
        BodyView::Text(
            if c == 'S' {
                upper_case(cut)
            } else {
                cut
            },
        )
    } else {
        BodyView::Fault(unknown_conversion_message(c))
    }
}

/// The number of a floating-point value.
pub open spec fn number_of_value(h: HostView, v: Value) -> DoubleView {
    match v {
        Value::Float(id) => h.double(id),
        _ => DoubleView { bits: 0, digits: seq!['0'], exp10: 0 },
    }
}

/// What one directive comes to.
#[verifier::ext_equal]
pub enum PieceView {
    /// Its text, and how many arguments and machine texts it used.
    Text(Seq<char>, int, int),
    Render(Value, int),
    Fault(Seq<char>),
}

/// The text of a body under the flags: grouped, signed and widened.
pub open spec fn decorated(d: DirectiveView, body: Seq<char>) -> Result<Seq<char>, Seq<char>> {
    if d.group && d.conv != 'd' && d.conv != 'f' {
        Err(
            "java.util.FormatFlagsConversionMismatchException: Conversion = "@ + seq![d.conv]
                + ", Flags = ,"@,
        )
    } else {
        let b = if d.group {
            thousands(body)
        } else {
            body
        };
        let signed = if (d.conv == 'd' || d.conv == 'f' || d.conv == 'e' || d.conv == 'E') && !(
        b.len() > 0 && b[0] == '-') {
            if d.plus {
                seq!['+'] + b
            } else if d.space {
                seq![' '] + b
            } else {
                b
            }
        } else {
            b
        };
        Ok(padded(signed, d.width, d.left, d.zero, d.conv))
    }
}

/// What the directive `d`, written `spec`, comes to with the arguments from `ai`
/// on and the machine texts from `ri` on.
pub open spec fn piece(
    h: HostView,
    d: DirectiveView,
    spec: Seq<char>,
    args: Seq<Value>,
    ai: int,
    log: Seq<Seq<char>>,
    ri: int,
) -> PieceView {
    let free = d.conv == '%' || d.conv == 'n';
    if !free && ai >= args.len() {
        PieceView::Fault(
            "java.util.MissingFormatArgumentException: Format specifier '"@ + spec + "'"@,
        )
    } else {
        let arg = if free {
            Value::Undef
        } else {
            args[ai]
        };
        let next: int = if free {
            ai
        } else {
            ai + 1
        };
        if !accepts(d.conv, arg) {
            PieceView::Fault(
                "java.util.IllegalFormatConversionException: "@ + seq![d.conv] + " != "@
                    + argument_class(h, arg),
            )
        } else if arg == Value::Undef && !free && d.conv != 'b' {
            PieceView::Text(padded("null"@, d.width, d.left, false, d.conv), next, ri)
        } else {
            let shown = if ri < log.len() {
                Some(log[ri])
            } else {
                None
            };
            match body_of(h, d, arg, shown) {
                BodyView::Fault(m) => PieceView::Fault(m),
                BodyView::Render(v, p) => PieceView::Render(v, p),
                BodyView::Text(b) => match decorated(d, b) {
                    Err(m) => PieceView::Fault(m),
                    Ok(t) => PieceView::Text(
                        t,
                        next,
                        if d.conv == 'e' || d.conv == 'E' {
                            ri + 1
                        } else {
                            ri
                        },
                    ),
                },
            }
        }
    }
}

/// What formatting comes to.
#[verifier::ext_equal]
pub enum FormattedView {
    Done(Seq<char>),
    /// A number in scientific notation with so many fraction digits is needed.
    Render(Value, int),
    Fault(Seq<char>),
}

/// `t` before what is done.
pub open spec fn before(t: Seq<char>, r: FormattedView) -> FormattedView {
    match r {
        FormattedView::Done(s) => FormattedView::Done(t + s),
        other => other,
    }
}

/// The format `s` from position `p` on.
pub open spec fn formatted_from(
    h: HostView,
    s: Seq<char>,
    p: int,
    args: Seq<Value>,
    ai: int,
    log: Seq<Seq<char>>,
    ri: int,
) -> FormattedView
    decreases s.len() - p,
{
    if p < 0 || p >= s.len() {
        FormattedView::Done(Seq::empty())
    } else if s[p] != '%' {
        before(seq![s[p]], formatted_from(h, s, p + 1, args, ai, log, ri))
    } else {
        match directive_at(s, p + 1) {
            Err(m) => FormattedView::Fault(m),
            Ok(d) => {
                proof {
                    lemma_directive(s, p + 1);
                }
                match piece(h, d, s.subrange(p, d.next), args, ai, log, ri) {
                    PieceView::Fault(m) => FormattedView::Fault(m),
                    PieceView::Render(v, n) => FormattedView::Render(v, n),
                    PieceView::Text(t, a, r) => before(
                        t,
                        formatted_from(h, s, d.next, args, a, log, r),
                    ),
                }
            },
        }
    }
}

/// What `String.format` comes to, given the machine texts so far.
pub open spec fn formatted(h: HostView, fmt: Seq<char>, args: Seq<Value>, log: Seq<Seq<char>>) -> FormattedView {
    formatted_from(h, fmt, 0, args, 0, log, 0)
}

fn group_digits(v: &Vec<char>, to: usize) -> (r: Vec<char>)
    requires
        to <= v@.len(),
    ensures
        r@ == grouped_digits(v@.take(to as int)),
    decreases to,
{
    let ghost d = v@.take(to as int);
    if to <= 3 {
        let mut r: Vec<char> = Vec::new();
        crate::double::push_range(&mut r, v, 0, to);
        assert(r@ =~= d);
        return r;
    }
    let mut r: Vec<char> = group_digits(v, to - 3);
    assert(v@.take(to - 3) =~= d.take(d.len() - 3));
    r.push(',');
    crate::double::push_range(&mut r, v, to - 3, to);
    assert(r@ =~= grouped_digits(d.take(d.len() - 3)) + seq![','] + d.skip(d.len() - 3));
    r
}

fn find_point(v: &Vec<char>, from: usize) -> (p: usize)
    requires
        from <= v@.len(),
    ensures
        from <= p <= v@.len(),
        p - from == crate::numtext::point_mark(v@.skip(from as int), 0),
{
    let ghost s = v@.skip(from as int);
    let mut p: usize = from;
    while p < v.len() && v[p] != '.'
        invariant
            from <= p <= v@.len(),
            s == v@.skip(from as int),
            crate::numtext::point_mark(s, p - from) == crate::numtext::point_mark(s, 0),
        decreases v.len() - p,
    {
        assert(s[p - from] == v@[p as int]);
        p = p + 1;
    }
    if p < v.len() {
        assert(s[p - from] == v@[p as int]);
    }
    p
}

fn chars_between(v: &Vec<char>, from: usize, to: usize) -> (r: Vec<char>)
    requires
        from <= to <= v@.len(),
    ensures
        r@ == v@.subrange(from as int, to as int),
{
    let mut r: Vec<char> = Vec::new();
    crate::double::push_range(&mut r, v, from, to);
    assert(r@ =~= v@.subrange(from as int, to as int));
    r
}

/// Separate the thousands of an already rendered number, leaving a leading sign
/// and any fraction alone.
pub fn group_thousands(body: &str) -> (s: String)
    ensures
        s@ == thousands(body@),
{
    let v: Vec<char> = chars_of_str(body);
    let negative: bool = v.len() > 0 && v[0] == '-';
    let from: usize = if negative {
        1
    } else {
        0
    };
    let ghost rest = v@.skip(from as int);
    let p: usize = find_point(&v, from);
    let digits: Vec<char> = chars_between(&v, from, p);
    assert(digits@ =~= rest.take(p - from));
    assert(digits@.take(digits@.len() as int) =~= digits@);
    let mut r: Vec<char> = Vec::new();
    if negative {
        r.push('-');
    }
    let g: Vec<char> = group_digits(&digits, digits.len());
    let ghost sign = r@;
    crate::double::push_range(&mut r, &g, 0, g.len());
    crate::double::push_range(&mut r, &v, p, v.len());
    assert(rest.skip(p - from) =~= v@.subrange(p as int, v@.len() as int));
    assert(g@.subrange(0, g@.len() as int) =~= g@);
    assert(r@ =~= sign + (grouped_digits(rest.take(p - from)) + rest.skip(p - from)));
    proof {
        if !negative {
            assert(rest =~= v@);
            assert(sign =~= Seq::<char>::empty());
            assert(r@ =~= thousands_of(v@));
        } else {
            assert(sign =~= seq!['-']);
        }
    }
    crate::double::to_string(&r)
}

/// Separating thousands keeps the digits: without the commas it put in, the
/// text is what it was.
pub proof fn law_grouping_keeps_digits(d: Seq<char>)
    requires
        !d.contains(','),
    ensures
        grouped_digits(d).filter(|c: char| c != ',') == d,
    decreases d.len(),
{
    let f = |c: char| c != ',';
    if d.len() <= 3 {
        lemma_filter_all(d);
    } else {
        let a = d.take(d.len() - 3);
        let b = d.skip(d.len() - 3);
        assert forall|i: int| 0 <= i < a.len() implies a[i] != ',' by {
            assert(d.contains(d[i]));
            assert(a[i] == d[i]);
        }
        assert forall|i: int| 0 <= i < b.len() implies b[i] != ',' by {
            assert(d.contains(d[d.len() - 3 + i]));
        }
        law_grouping_keeps_digits(a);
        lemma_filter_all(b);
        Seq::filter_distributes_over_add(grouped_digits(a), seq![','], f);
        Seq::filter_distributes_over_add(grouped_digits(a) + seq![','], b, f);
        assert(seq![','].filter(f) =~= Seq::<char>::empty()) by {
            reveal_with_fuel(Seq::filter, 2);
            let one = seq![','];
            assert(one.drop_last() =~= Seq::<char>::empty());
            assert(one.last() == ',');
        }
        assert(a + Seq::<char>::empty() + b =~= d);
    }
}

proof fn lemma_filter_all(d: Seq<char>)
    requires
        !d.contains(','),
    ensures
        d.filter(|c: char| c != ',') == d,
    decreases d.len(),
{
    reveal(Seq::filter);
    if d.len() > 0 {
        assert(d.contains(d.last()));
        assert forall|i: int| 0 <= i < d.drop_last().len() implies d.drop_last()[i] != ',' by {
            assert(d.contains(d[i]));
        }
        lemma_filter_all(d.drop_last());
        assert(d.drop_last().push(d.last()) =~= d);
    } else {
        assert(d.filter(|c: char| c != ',') =~= d);
    }
}

fn copies_of(c: &str, n: i64) -> (s: String)
    requires
        c@.len() == 1,
    ensures
        s@ == copies(c@[0], n as int),
{
    assert(c@ =~= seq![c@[0]]);
    repeat(c, n)
}

/// Widen `body` to `width`.
pub fn pad(body: &str, width: u32, left: bool, zero: bool, conv: char) -> (s: String)
    ensures
        s@ == padded(body@, width as int, left, zero, conv),
{
    let v: Vec<char> = chars_of_str(body);
    if v.len() >= width as usize {
        return body.to_owned();
    }
    let n: i64 = width as i64 - v.len() as i64;
    proof {
        reveal_strlit(" ");
        reveal_strlit("0");
        assert(" "@[0] == ' ' && "0"@[0] == '0');
    }
    if left {
        concat2(body, copies_of(" ", n).as_str())
    } else if zero && (conv == 'd' || conv == 'f' || conv == 'e' || conv == 'E' || conv == 'x'
        || conv == 'X' || conv == 'o') {
        let at: usize = if v.len() > 0 && (v[0] == '-' || v[0] == '+' || v[0] == ' ') {
            1
        } else {
            0
        };
        let head: String = string_of(&v, 0, at);
        let tail: String = string_of(&v, at, v.len());
        assert(v@.subrange(0, at as int) =~= v@.take(at as int));
        assert(v@.subrange(at as int, v@.len() as int) =~= v@.skip(at as int));
        concat3(head.as_str(), copies_of("0", n).as_str(), tail.as_str())
    } else {
        concat2(copies_of(" ", n).as_str(), body)
    }
}

/// Padding reaches the width asked for, and a body that is wide enough stays as
/// it is.
pub proof fn law_padding_reaches_width(
    body: Seq<char>,
    width: int,
    left: bool,
    zero: bool,
    conv: char,
)
    ensures
        body.len() >= width ==> padded(body, width, left, zero, conv) == body,
        body.len() < width ==> padded(body, width, left, zero, conv).len() == width,
{
    let n = width - body.len();
    if n > 0 {
        lemma_copies_len(' ', n);
        lemma_copies_len('0', n);
    }
}

proof fn lemma_copies_len(c: char, n: int)
    requires
        n >= 0,
    ensures
        copies(c, n).len() == n,
    decreases n,
{
    if n > 0 {
        lemma_copies_len(c, n - 1);
    }
}

fn scientific_form(s: &str) -> (r: String)
    ensures
        r@ == scientific(s@),
{
    let v: Vec<char> = chars_of_str(s);
    let mut k: usize = 0;
    while k < v.len() && v[k] != 'e'
        invariant
            k <= v@.len(),
            exponent_at(v@, k as int) == exponent_at(v@, 0),
        decreases v.len() - k,
    {
        k = k + 1;
    }
    if k >= v.len() {
        return s.to_owned();
    }
    let head: String = string_of(&v, 0, k);
    assert(v@.subrange(0, k as int) =~= v@.take(k as int));
    let ghost x = v@.skip(k + 1);
    let negative: bool = k + 1 < v.len() && v[k + 1] == '-';
    assert(negative == (x.len() > 0 && x[0] == '-'));
    let from: usize = if negative {
        k + 2
    } else {
        k + 1
    };
    let ghost digits = if negative {
        x.skip(1)
    } else {
        x
    };
    assert(v@.subrange(from as int, v@.len() as int) =~= digits);
    let tail: String = string_of(&v, from, v.len());
    let n: usize = v.len() - from;
    let pad: &str = if n == 0 {
        "00"
    } else if n == 1 {
        "0"
    } else {
        ""
    };
    proof {
        reveal_strlit("00");
        reveal_strlit("0");
        reveal_strlit("");
        reveal_with_fuel(repeated, 3);
        assert("00"@ =~= copies('0', 2));
        assert("0"@ =~= copies('0', 1));
        assert(""@ =~= copies('0', 2 - digits.len()) || n < 2);
        reveal_strlit("e-");
        reveal_strlit("e+");
        assert("e-"@ =~= seq!['e'] + seq!['-']);
        assert("e+"@ =~= seq!['e'] + seq!['+']);
    }
    let mark: &str = if negative {
        "e-"
    } else {
        "e+"
    };
    let r: String = concat4(head.as_str(), mark, pad, tail.as_str());
    assert(r@ =~= scientific(s@));
    r
}

fn upper_digits(s: &str) -> (r: String)
    ensures
        r@ == s@.map_values(|x: char| upper_digit(x)),
{
    let v: Vec<char> = chars_of_str(s);
    let mut r: String = String::new();
    let ghost want = s@.map_values(|x: char| upper_digit(x));
    let mut i: usize = 0;
    while i < v.len()
        invariant
            i <= v@.len(),
            v@ == s@,
            want == s@.map_values(|x: char| upper_digit(x)),
            r@ == want.take(i as int),
        decreases v.len() - i,
    {
        let c: char = if v[i] == 'a' {
            'A'
        } else if v[i] == 'b' {
            'B'
        } else if v[i] == 'c' {
            'C'
        } else if v[i] == 'd' {
            'D'
        } else if v[i] == 'e' {
            'E'
        } else if v[i] == 'f' {
            'F'
        } else {
            v[i]
        };
        assert(c == upper_digit(v@[i as int]));
        push_char(&mut r, c);
        i = i + 1;
        assert(want.take(i as int) =~= want.take(i - 1).push(want[i - 1]));
    }
    assert(want.take(i as int) =~= want);
    r
}

enum Body {
    Text(String),
    Render(Value, u32),
    Fault(String),
}

impl View for Body {
    type V = BodyView;

    closed spec fn view(&self) -> BodyView {
        match self {
            Body::Text(s) => BodyView::Text(s@),
            Body::Render(v, p) => BodyView::Render(*v, *p as int),
            Body::Fault(m) => BodyView::Fault(m@),
        }
    }
}

fn number_at(h: &Host, v: Value) -> (d: Double)
    ensures
        d@ == number_of_value(h@, v),
{
    if let Value::Float(id) = v {
        if id < h.doubles.len() {
            let d: &Double = &h.doubles[id];
            return Double { bits: d.bits, digits: d.digits.as_str().to_owned(), exp10: d.exp10 };
        }
    }
    proof {
        reveal_strlit("0");
    }
    assert("0"@ =~= seq!['0']);
    Double { bits: 0, digits: "0".to_owned(), exp10: 0 }
}

fn one_char(c: char) -> (s: String)
    ensures
        s@ == seq![c],
{
    let mut s: String = String::new();
    push_char(&mut s, c);
    assert(s@ =~= seq![c]);
    s
}

fn convert(h: &Host, d: &Directive, arg: Value, shown: Option<&str>) -> (r: Body)
    ensures
        r@ == body_of(
            h@,
            d@,
            arg,
            match shown {
                Some(s) => Some(s@),
                None => None,
            },
        ),
{
    let c: char = d.conv;
    let digits: u32 = match d.prec {
        Some(p) => p,
        None => 6,
    };
    if c == '%' {
        Body::Text(one_char('%'))
    } else if c == 'n' {
        Body::Text(one_char('\n'))
    } else if c == 'd' {
        Body::Text(int_text(h.to_int(arg)))
    } else if c == 'x' {
        Body::Text(unsigned_to_radix(h.to_int(arg) as u64, 16))
    } else if c == 'X' {
        Body::Text(upper_digits(unsigned_to_radix(h.to_int(arg) as u64, 16).as_str()))
    } else if c == 'o' {
        Body::Text(unsigned_to_radix(h.to_int(arg) as u64, 8))
    } else if c == 'f' {
        Body::Text(format_fixed(&number_at(h, arg), digits))
    } else if c == 'e' || c == 'E' {
        match shown {
            None => Body::Render(arg, digits),
            Some(s) => {
                let t: String = scientific_form(s);
                if c == 'E' {
                    Body::Text(to_upper(t.as_str()))
                } else {
                    Body::Text(t)
                }
            },
        }
    } else if c == 'c' {
        Body::Text(char_string(h.num_of(arg)))
    } else if c == 'b' {
        match arg {
            Value::Undef => Body::Text("false".to_owned()),
            Value::Bool(b) => if b {
                Body::Text("true".to_owned())
            } else {
                Body::Text("false".to_owned())
            },
            _ => Body::Text("true".to_owned()),
        }
    } else if c == 's' || c == 'S' {
        let t: String = kotlin_string(h, arg);
        let cut: String = match d.prec {
            Some(p) => {
                let v: Vec<char> = chars_of_str(t.as_str());
                if (p as u64) < v.len() as u64 {
                    assert(v@.subrange(0, p as int) =~= v@.take(p as int));
                    string_of(&v, 0, p as usize)
                } else {
                    t
                }
            },
            None => t,
        };
        if c == 'S' {
            Body::Text(to_upper(cut.as_str()))
        } else {
            Body::Text(cut)
        }
    } else {
        Body::Fault(unknown_conversion(c))
    }
}

fn decorate(d: &Directive, body: String) -> (r: Result<String, String>)
    ensures
        match r {
            Ok(t) => decorated(d@, body@) == Ok::<Seq<char>, Seq<char>>(t@),
            Err(m) => decorated(d@, body@) == Err::<Seq<char>, Seq<char>>(m@),
        },
{
    if d.group && d.conv != 'd' && d.conv != 'f' {
        return Err(
            concat3(
                "java.util.FormatFlagsConversionMismatchException: Conversion = ",
                one_char(d.conv).as_str(),
                ", Flags = ,",
            ),
        );
    }
    let b: String = if d.group {
        group_thousands(body.as_str())
    } else {
        body
    };
    let v: Vec<char> = chars_of_str(b.as_str());
    let signed: String = if (d.conv == 'd' || d.conv == 'f' || d.conv == 'e' || d.conv == 'E')
        && !(v.len() > 0 && v[0] == '-') {
        if d.plus {
            concat2(one_char('+').as_str(), b.as_str())
        } else if d.space {
            concat2(one_char(' ').as_str(), b.as_str())
        } else {
            b
        }
    } else {
        b
    };
    Ok(pad(signed.as_str(), d.width, d.left, d.zero, d.conv))
}

enum Piece {
    Text(String, usize, usize),
    Render(Value, u32),
    Fault(String),
}

impl View for Piece {
    type V = PieceView;

    closed spec fn view(&self) -> PieceView {
        match self {
            Piece::Text(s, a, r) => PieceView::Text(s@, *a as int, *r as int),
            Piece::Render(v, p) => PieceView::Render(*v, *p as int),
            Piece::Fault(m) => PieceView::Fault(m@),
        }
    }
}

fn format_piece(
    h: &Host,
    d: &Directive,
    spec: &str,
    args: &Vec<Value>,
    ai: usize,
    log: &Vec<String>,
    ri: usize,
) -> (r: Piece)
    requires
        ai <= args@.len(),
        ri <= log@.len(),
    ensures
        r@ == piece(h@, d@, spec@, args@, ai as int, texts_view(log@), ri as int),
        r matches Piece::Text(_, a, k) ==> a <= args@.len() && k <= log@.len(),
{
    let free: bool = d.conv == '%' || d.conv == 'n';
    if !free && ai >= args.len() {
        return Piece::Fault(
            concat3("java.util.MissingFormatArgumentException: Format specifier '", spec, "'"),
        );
    }
    let arg: Value = if free {
        Value::Undef
    } else {
        args[ai]
    };
    let next: usize = if free {
        ai
    } else {
        ai + 1
    };
    if !conversion_accepts(d.conv, arg) {
        let head: String = concat3(
            "java.util.IllegalFormatConversionException: ",
            one_char(d.conv).as_str(),
            " != ",
        );
        return Piece::Fault(concat2(head.as_str(), format_arg_class(h, arg).as_str()));
    }
    if matches!(arg, Value::Undef) && !free && d.conv != 'b' {
        return Piece::Text(pad("null", d.width, d.left, false, d.conv), next, ri);
    }
    let shown: Option<&str> = if ri < log.len() {
        Some(log[ri].as_str())
    } else {
        None
    };
    match convert(h, d, arg, shown) {
        Body::Fault(m) => Piece::Fault(m),
        Body::Render(v, p) => Piece::Render(v, p),
        Body::Text(b) => match decorate(d, b) {
            Err(m) => Piece::Fault(m),
            Ok(t) => if d.conv == 'e' || d.conv == 'E' {
                Piece::Text(t, next, ri + 1)
            } else {
                Piece::Text(t, next, ri)
            },
        },
    }
}

/// What formatting comes to.
#[derive(Debug, PartialEq, Eq)]
pub enum Formatted {
    Done(String),
    /// A number in scientific notation with so many fraction digits is needed.
    Render(Value, u32),
    Fault(String),
}

impl View for Formatted {
    type V = FormattedView;

    open spec fn view(&self) -> FormattedView {
        match self {
            Formatted::Done(s) => FormattedView::Done(s@),
            Formatted::Render(v, p) => FormattedView::Render(*v, *p as int),
            Formatted::Fault(m) => FormattedView::Fault(m@),
        }
    }
}

/// `String.format(args…)`. `log` holds the machine's scientific notations of the
/// numbers asked for so far, in order.
pub fn format_string(h: &Host, fmt: &str, args: &Vec<Value>, log: &Vec<String>) -> (r: Formatted)
    ensures
        r@ == formatted(h@, fmt@, args@, texts_view(log@)),
{
    let v: Vec<char> = chars_of_str(fmt);
    let ghost shown = texts_view(log@);
    let ghost goal = formatted(h@, fmt@, args@, shown);
    let mut out: String = String::new();
    let mut p: usize = 0;
    let mut ai: usize = 0;
    let mut ri: usize = 0;
    assert(before(out@, goal) =~= goal) by {
        if let FormattedView::Done(s) = goal {
            assert(out@ + s =~= s);
        }
    }
    while p < v.len()
        invariant
            p <= v@.len(),
            v@ == fmt@,
            ai <= args@.len(),
            ri <= log@.len(),
            shown == texts_view(log@),
            goal == formatted(h@, fmt@, args@, shown),
            before(
                out@,
                formatted_from(h@, v@, p as int, args@, ai as int, shown, ri as int),
            ) == goal,
        decreases v.len() - p,
    {
        let ghost rest = formatted_from(h@, v@, p as int, args@, ai as int, shown, ri as int);
        let ghost head = out@;
        if v[p] != '%' {
            push_char(&mut out, v[p]);
            proof {
                let after = formatted_from(h@, v@, p + 1, args@, ai as int, shown, ri as int);
                if let FormattedView::Done(s) = after {
                    assert(head.push(v@[p as int]) + s =~= head + (seq![v@[p as int]] + s));
                }
            }
            p = p + 1;
        } else {
            let d: Directive = match read_directive(&v, p + 1) {
                Ok(d) => d,
                Err(m) => {
                    return Formatted::Fault(m);
                },
            };
            let spec: String = string_of(&v, p, d.next);
            match format_piece(h, &d, spec.as_str(), args, ai, log, ri) {
                Piece::Fault(m) => {
                    return Formatted::Fault(m);
                },
                Piece::Render(x, n) => {
                    return Formatted::Render(x, n);
                },
                Piece::Text(t, a, k) => {
                    out.append(t.as_str());
                    proof {
                        let after = formatted_from(
                            h@,
                            v@,
                            d.next as int,
                            args@,
                            a as int,
                            shown,
                            k as int,
                        );
                        if let FormattedView::Done(s) = after {
                            assert((head + t@) + s =~= head + (t@ + s));
                        }
                    }
                    ai = a;
                    ri = k;
                },
            }
            p = d.next;
        }
    }
    assert(out@ + Seq::<char>::empty() =~= out@);
    Formatted::Done(out)
}

} // verus!
