//! The members of `kotlin.String` that need no lambda.
use crate::compare::value_eq;
use crate::display::kotlin_string;
use crate::host::Host;
use crate::numtext::{parse_number, parse_radix, ParseFail};
use crate::radix::{int_text, unsigned_to_radix};
use crate::reply::Reply;
use crate::search::{
    contains,
    find,
    has_prefix,
    has_suffix,
    replace_all,
    replace_first,
    split,
    split_at_any,
    text_after,
    text_before,
};
use crate::text::{char_from_code, chars_of_str, concat2, concat3, push_char, same, string_of};
use crate::utf16::{units, utf16_to_string};
use crate::value::{char_code, char_of, truthy, HeapObj, Value};
use vstd::prelude::*;

verus! {

use crate::compare::{budget, eq_within};
use crate::display::text_of;
use crate::host::HostView;
use crate::numtext::{number_fault, number_of, radix_of, radix_reply, radix_reply_or_null};
use crate::radix::decimal;
use crate::reply::{reply_view, ReplyView};
use crate::search::{
    after_first,
    before_first,
    ends_with,
    find_from,
    pieces,
    replaced,
    replaced_first,
    split_any,
    starts_with,
    texts_view,
};
use crate::utf16::{law_units_concat, law_utf16_round_trip, text_of_units, unit_len, units_of};
use crate::value::{char_value, code_of, holds, ObjView};

// ── Arguments ───────────────────────────────────────────────────────────────

/// Argument `i` as text; empty when it was not given.
pub open spec fn arg_text(h: HostView, args: Seq<Value>, i: int) -> Seq<char> {
    if 0 <= i < args.len() {
        text_of(h, args[i])
    } else {
        Seq::empty()
    }
}

/// Argument `i` as an integer, or `default` when it was not given.
pub open spec fn arg_int(h: HostView, args: Seq<Value>, i: int, default: int) -> int {
    if 0 <= i < args.len() {
        h.to_int(args[i])
    } else {
        default
    }
}

/// Whether argument `i` was given and is `true`.
pub open spec fn arg_flag(args: Seq<Value>, i: int) -> bool {
    0 <= i < args.len() && holds(args[i])
}

/// Argument `i` as text.
pub fn arg_str(h: &Host, args: &Vec<Value>, i: usize) -> (s: String)
    ensures
        s@ == arg_text(h@, args@, i as int),
{
    if i < args.len() {
        kotlin_string(h, args[i])
    } else {
        String::new()
    }
}

/// Argument `i` as an integer.
pub fn int_arg(h: &Host, args: &Vec<Value>, i: usize, default: i64) -> (n: i64)
    ensures
        n == arg_int(h@, args@, i as int, default as int),
{
    if i < args.len() {
        h.to_int(args[i])
    } else {
        default
    }
}

/// Whether the optional flag argument at `i` was supplied and true.
pub fn truthy_arg(args: &Vec<Value>, i: usize) -> (r: bool)
    ensures
        r == arg_flag(args@, i as int),
{
    i < args.len() && truthy(&args[i])
}

// ── Case ────────────────────────────────────────────────────────────────────

/// The text in upper case, by the Unicode tables of the standard library.
pub uninterp spec fn upper_case(s: Seq<char>) -> Seq<char>;

/// The text in lower case, by the Unicode tables of the standard library.
pub uninterp spec fn lower_case(s: Seq<char>) -> Seq<char>;

/// `str::to_uppercase`: the Unicode upper-case form of the text.
#[verifier::external_body]
pub(crate) fn to_upper(s: &str) -> (r: String)
    ensures
        r@ == upper_case(s@),
{
    s.to_uppercase()
}

/// `str::to_lowercase`: the Unicode lower-case form of the text.
#[verifier::external_body]
pub(crate) fn to_lower(s: &str) -> (r: String)
    ensures
        r@ == lower_case(s@),
{
    s.to_lowercase()
}

// ── Whitespace ──────────────────────────────────────────────────────────────

/// Kotlin's `Char.isWhitespace()`: the union of Java's `isWhitespace` and
/// `isSpaceChar`.
pub open spec fn is_white(c: char) -> bool {
    let n = c as int;
    ||| 0x9 <= n <= 0xd
    ||| 0x1c <= n <= 0x20
    ||| n == 0xa0
    ||| n == 0x1680
    ||| 0x2000 <= n <= 0x200a
    ||| n == 0x2028
    ||| n == 0x2029
    ||| n == 0x202f
    ||| n == 0x205f
    ||| n == 0x3000
}

/// Kotlin's `Char.isWhitespace()`: `Character.isWhitespace(c) ||
/// Character.isSpaceChar(c)`. The information separators count and the next-line
/// control does not, unlike in Unicode's `White_Space`.
pub fn kotlin_is_whitespace(c: char) -> (r: bool)
    ensures
        r == is_white(c),
{
    let n: u32 = c as u32;
    (0x9 <= n && n <= 0xd) || (0x1c <= n && n <= 0x20) || n == 0xa0 || n == 0x1680 || (0x2000 <= n
        && n <= 0x200a) || n == 0x2028 || n == 0x2029 || n == 0x202f || n == 0x205f || n == 0x3000
}

/// `s` without its leading whitespace.
pub open spec fn trimmed_start(s: Seq<char>) -> Seq<char>
    decreases s.len(),
{
    if s.len() > 0 && is_white(s[0]) {
        trimmed_start(s.skip(1))
    } else {
        s
    }
}

/// `s` without its trailing whitespace.
pub open spec fn trimmed_end(s: Seq<char>) -> Seq<char>
    decreases s.len(),
{
    if s.len() > 0 && is_white(s.last()) {
        trimmed_end(s.drop_last())
    } else {
        s
    }
}

/// `s` without the whitespace at the chosen ends.
pub open spec fn trimmed(s: Seq<char>, start: bool, end: bool) -> Seq<char> {
    let a = if start {
        trimmed_start(s)
    } else {
        s
    };
    if end {
        trimmed_end(a)
    } else {
        a
    }
}

/// `String.trim()`, `trimStart()` and `trimEnd()`, which key on
/// [`kotlin_is_whitespace`].
pub fn kotlin_trim(s: &str, start: bool, end: bool) -> (r: String)
    ensures
        r@ == trimmed(s@, start, end),
{
    let v: Vec<char> = chars_of_str(s);
    let mut i: usize = 0;
    assert(v@.skip(0) =~= v@);
    if start {
        while i < v.len() && kotlin_is_whitespace(v[i])
            invariant
                i <= v@.len(),
                trimmed_start(v@.skip(i as int)) == trimmed_start(v@),
            decreases v.len() - i,
        {
            assert(v@.skip(i as int).skip(1) =~= v@.skip(i + 1));
            i = i + 1;
        }
        assert(trimmed_start(v@) == v@.skip(i as int));
    }
    let ghost head = v@.skip(i as int);
    let mut j: usize = v.len();
    assert(v@.subrange(i as int, j as int) =~= head);
    if end {
        while j > i && kotlin_is_whitespace(v[j - 1])
            invariant
                i <= j <= v@.len(),
                trimmed_end(v@.subrange(i as int, j as int)) == trimmed_end(head),
            decreases j,
        {
            let ghost t = v@.subrange(i as int, j as int);
            assert(t.last() == v@[j - 1]);
            assert(t.drop_last() =~= v@.subrange(i as int, j - 1));
            j = j - 1;
        }
        proof {
            let t = v@.subrange(i as int, j as int);
            if j > i {
                assert(t.last() == v@[j - 1]);
            }
        }
    }
    string_of(&v, i, j)
}

// ── Faults ──────────────────────────────────────────────────────────────────

/// The diagnostic for a single index outside a text.
pub open spec fn index_message(i: int, len: int) -> Seq<char> {
    "java.lang.StringIndexOutOfBoundsException: Index "@ + decimal(i) + " out of bounds for length "@
        + decimal(len)
}

/// The diagnostic for a half-open range outside a text.
pub open spec fn range_message(from: int, to: int, len: int) -> Seq<char> {
    "java.lang.StringIndexOutOfBoundsException: Range ["@ + decimal(from) + ", "@ + decimal(to)
        + ") out of bounds for length "@ + decimal(len)
}

/// `StringIndexOutOfBoundsException` for a single index: `s[i]`, `s.get(i)`,
/// `sb.deleteCharAt(i)`, `sb.setCharAt(i, c)`.
pub fn sioobe_index(i: i64, len: usize) -> (s: String)
    ensures
        s@ == index_message(i as int, len as int),
{
    let head: String = concat2(
        "java.lang.StringIndexOutOfBoundsException: Index ",
        int_text(i).as_str(),
    );
    concat3(head.as_str(), " out of bounds for length ", size_text(len).as_str())
}

/// A size in decimal notation.
pub fn size_text(n: usize) -> (s: String)
    ensures
        s@ == decimal(n as int),
{
    unsigned_to_radix(n as u64, 10)
}

/// `StringIndexOutOfBoundsException` for a half-open range: `substring`,
/// `subSequence`, `sb.insert`, `sb.delete`, `sb.replace`.
pub fn sioobe_range(from: i64, to: i64, len: usize) -> (s: String)
    ensures
        s@ == range_message(from as int, to as int, len as int),
{
    let head: String = concat2(
        "java.lang.StringIndexOutOfBoundsException: Range [",
        int_text(from).as_str(),
    );
    let mid: String = concat3(head.as_str(), ", ", int_text(to).as_str());
    concat3(mid.as_str(), ") out of bounds for length ", size_text(len).as_str())
}

/// `before`, a number, and `after`.
pub open spec fn with_number(before: Seq<char>, n: int, after: Seq<char>) -> Seq<char> {
    before + decimal(n) + after
}

pub(crate) fn number_message(before: &str, n: i64, after: &str) -> (s: String)
    ensures
        s@ == with_number(before@, n as int, after@),
{
    concat3(before, int_text(n).as_str(), after)
}

// ── Code-unit slices ────────────────────────────────────────────────────────

/// The text of the code units `from .. to` of `u`.
pub(crate) fn slice_text(u: &Vec<u16>, from: usize, to: usize) -> (s: String)
    requires
        from <= to <= u@.len(),
    ensures
        s@ == text_of_units(u@.subrange(from as int, to as int)),
{
    let mut part: Vec<u16> = Vec::new();
    let mut i: usize = from;
    while i < to
        invariant
            from <= i <= to <= u@.len(),
            part@ == u@.subrange(from as int, i as int),
        decreases to - i,
    {
        part.push(u[i]);
        i = i + 1;
        assert(u@.subrange(from as int, i as int) =~= u@.subrange(from as int, i - 1).push(
            u@[i - 1],
        ));
    }
    utf16_to_string(&part)
}

/// A length as an `Int`.
pub open spec fn as_int(n: int) -> Value {
    Value::Int(n as i64)
}

/// The tail of `s` starting at UTF-16 offset `at`; `None` past the end.
pub open spec fn tail_from(s: Seq<char>, at: int) -> Option<Seq<char>> {
    if at < 0 || at > unit_len(s) {
        None
    } else {
        Some(text_of_units(units_of(s).subrange(at, unit_len(s))))
    }
}

/// The tail of `s` starting at UTF-16 offset `at`, or `None` when `at` is past
/// the end.
pub fn utf16_slice_from(s: &str, at: i64) -> (r: Option<String>)
    ensures
        crate::value::opt_text(r) == tail_from(s@, at as int),
{
    let u: Vec<u16> = units(s);
    if at < 0 || at as i128 > u.len() as i128 {
        return None;
    }
    Some(slice_text(&u, at as usize, u.len()))
}

/// UTF-16 offset of `needle` in `hay`, or -1.
pub open spec fn unit_index_of(hay: Seq<char>, needle: Seq<char>) -> int {
    match find_from(hay, needle, 0) {
        Some(k) => unit_len(hay.take(k)),
        None => -1,
    }
}

/// UTF-16 offset of `needle` in `hay`, if it occurs.
pub fn utf16_index_of(hay: &str, needle: &str) -> (r: Option<usize>)
    ensures
        match r {
            Some(k) => k == unit_index_of(hay@, needle@),
            None => unit_index_of(hay@, needle@) == -1,
        },
{
    let v: Vec<char> = chars_of_str(hay);
    match find(&v, &chars_of_str(needle), 0) {
        Some(k) => {
            let head: String = string_of(&v, 0, k);
            assert(v@.subrange(0, k as int) =~= hay@.take(k as int));
            Some(units(head.as_str()).len())
        },
        None => None,
    }
}

// ── Members that ask ────────────────────────────────────────────────────────

/// `n` brought into `0 ..= hi`.
pub open spec fn clamped(n: int, hi: int) -> int {
    if n < 0 {
        0
    } else if n > hi {
        hi
    } else {
        n
    }
}

/// `indexOf(needle, startIndex)`: searches from an offset, which is clamped to
/// the text, and answers an absolute UTF-16 index or -1.
pub open spec fn index_from(s: Seq<char>, needle: Seq<char>, start: int) -> int {
    let at = clamped(start, unit_len(s));
    let tail = text_of_units(units_of(s).subrange(at, unit_len(s)));
    let found = unit_index_of(tail, needle);
    if found == -1 {
        -1
    } else {
        found + at
    }
}

/// The last position at or before `at` at which the code units `p` stand in
/// `u`, or -1.
pub open spec fn last_unit_index(u: Seq<u16>, p: Seq<u16>, at: int) -> int
    decreases at + 1,
{
    if at < 0 {
        -1
    } else if at + p.len() <= u.len() && u.subrange(at, at + p.len()) == p {
        at
    } else {
        last_unit_index(u, p, at - 1)
    }
}

/// `compareTo`: the code-unit difference at the first mismatch, else the length
/// difference.
pub open spec fn unit_difference(a: Seq<u16>, b: Seq<u16>) -> int
    decreases a.len(),
{
    if a.len() == 0 || b.len() == 0 {
        a.len() - b.len()
    } else if a[0] != b[0] {
        a[0] - b[0]
    } else {
        unit_difference(a.skip(1), b.skip(1))
    }
}

/// The start of a backward search: the given one, or the last index, but no
/// later than where the needle still fits.
pub open spec fn last_start(u: int, p: int, given: Option<int>) -> int {
    let want = match given {
        Some(n) => n,
        None => u - 1,
    };
    if want < u - p {
        want
    } else {
        u - p
    }
}

/// The `String` members that answer a number, a boolean or a character.
pub open spec fn text_query(
    h: HostView,
    recv: Value,
    s: Seq<char>,
    name: Seq<char>,
    args: Seq<Value>,
) -> Option<ReplyView> {
    let a0 = arg_text(h, args, 0);
    if name == "length"@ {
        Some(ReplyView::Value(as_int(unit_len(s))))
    } else if name == "isEmpty"@ {
        Some(ReplyView::Value(Value::Bool(s.len() == 0)))
    } else if name == "isNotEmpty"@ {
        Some(ReplyView::Value(Value::Bool(s.len() != 0)))
    } else if name == "isBlank"@ {
        Some(ReplyView::Value(Value::Bool(trimmed(s, true, true).len() == 0)))
    } else if name == "isNotBlank"@ {
        Some(ReplyView::Value(Value::Bool(trimmed(s, true, true).len() != 0)))
    } else if name == "contains"@ {
        Some(ReplyView::Value(Value::Bool(find_from(s, a0, 0) is Some)))
    } else if name == "startsWith"@ {
        Some(
            ReplyView::Value(
                Value::Bool(
                    tail_from(s, arg_int(h, args, 1, 0)) matches Some(tail) && starts_with(tail, a0),
                ),
            ),
        )
    } else if name == "endsWith"@ {
        Some(ReplyView::Value(Value::Bool(ends_with(s, a0))))
    } else if name == "indexOf"@ {
        Some(ReplyView::Value(as_int(index_from(s, a0, arg_int(h, args, 1, 0)))))
    } else if name == "lastIndexOf"@ {
        let u = units_of(s);
        let p = units_of(a0);
        let given = if args.len() > 1 {
            Some(h.to_int(args[1]))
        } else {
            None
        };
        Some(
            ReplyView::Value(
                as_int(last_unit_index(u, p, last_start(u.len() as int, p.len() as int, given))),
            ),
        )
    } else if name == "equals"@ {
        Some(
            ReplyView::Value(
                Value::Bool(
                    if arg_flag(args, 1) {
                        lower_case(s) == lower_case(a0)
                    } else {
                        args.len() > 0 && eq_within(h, recv, args[0], budget(h)) == Some(true)
                    },
                ),
            ),
        )
    } else if name == "compareTo"@ {
        let (x, y) = if arg_flag(args, 1) {
            (lower_case(s), lower_case(a0))
        } else {
            (s, a0)
        };
        Some(ReplyView::Value(as_int(unit_difference(units_of(x), units_of(y)))))
    } else if name == "first"@ || name == "last"@ {
        let u = units_of(s);
        Some(
            if u.len() == 0 {
                ReplyView::Fault("java.util.NoSuchElementException: Char sequence is empty."@)
            } else if name == "first"@ {
                ReplyView::Value(char_value(u[0] as int))
            } else {
                ReplyView::Value(char_value(u.last() as int))
            },
        )
    } else if name == "get"@ {
        let u = units_of(s);
        let i = arg_int(h, args, 0, 0);
        Some(
            if 0 <= i < u.len() {
                ReplyView::Value(char_value(u[i] as int))
            } else {
                ReplyView::Fault(index_message(i, u.len() as int))
            },
        )
    } else {
        None
    }
}

fn last_index(u: &Vec<u16>, p: &Vec<u16>, start: i128) -> (r: i64)
    requires
        start + p@.len() <= u@.len(),
    ensures
        r == last_unit_index(u@, p@, start as int) as i64,
{
    let n: usize = u.len();
    let mut at: i128 = start;
    while at >= 0
        invariant
            n == u@.len(),
            at + p@.len() <= u@.len(),
            last_unit_index(u@, p@, at as int) == last_unit_index(u@, p@, start as int),
        decreases at + 1,
    {
        let base: usize = at as usize;
        let mut j: usize = 0;
        while j < p.len() && u[base + j] == p[j]
            invariant
                n == u@.len(),
                base + p@.len() <= n,
                j <= p@.len(),
                forall|k: int| 0 <= k < j ==> u@[base + k] == p@[k],
            decreases p.len() - j,
        {
            j = j + 1;
        }
        if j == p.len() {
            assert(u@.subrange(base as int, base + p@.len()) =~= p@);
            return at as i64;
        }
        assert(u@.subrange(base as int, base + p@.len())[j as int] != p@[j as int]);
        at = at - 1;
    }
    -1
}

fn difference(a: &Vec<u16>, b: &Vec<u16>) -> (r: i64)
    ensures
        r == unit_difference(a@, b@) as i64,
{
    let mut i: usize = 0;
    assert(a@.skip(0) =~= a@ && b@.skip(0) =~= b@);
    while i < a.len() && i < b.len()
        invariant
            i <= a@.len(),
            i <= b@.len(),
            unit_difference(a@.skip(i as int), b@.skip(i as int)) == unit_difference(a@, b@),
        decreases a.len() - i,
    {
        assert(a@.skip(i as int)[0] == a@[i as int] && b@.skip(i as int)[0] == b@[i as int]);
        assert(a@.skip(i as int).skip(1) =~= a@.skip(i + 1));
        assert(b@.skip(i as int).skip(1) =~= b@.skip(i + 1));
        if a[i] != b[i] {
            return a[i] as i64 - b[i] as i64;
        }
        i = i + 1;
    }
    let d: i128 = a.len() as i128 - b.len() as i128;
    d as i64
}

fn index_of_from(s: &str, needle: &str, start: i64) -> (r: i64)
    ensures
        r == index_from(s@, needle@, start as int) as i64,
{
    let u: Vec<u16> = units(s);
    let at: usize = if start < 0 {
        0
    } else if start as i128 > u.len() as i128 {
        u.len()
    } else {
        start as usize
    };
    let tail: String = slice_text(&u, at, u.len());
    match utf16_index_of(tail.as_str(), needle) {
        None => -1,
        Some(k) => {
            let sum: u128 = k as u128 + at as u128;
            sum as i64
        },
    }
}

fn query(h: &Host, recv: Value, s: &str, name: &str, args: &Vec<Value>) -> (r: Option<Reply>)
    ensures
        reply_view(r) == text_query(h@, recv, s@, name@, args@),
{
    if same(name, "length") {
        Some(Reply::Value(Value::Int(units(s).len() as i64)))
    } else if same(name, "isEmpty") {
        Some(Reply::Value(Value::Bool(s.is_empty())))
    } else if same(name, "isNotEmpty") {
        Some(Reply::Value(Value::Bool(!s.is_empty())))
    } else if same(name, "isBlank") {
        Some(Reply::Value(Value::Bool(kotlin_trim(s, true, true).as_str().is_empty())))
    } else if same(name, "isNotBlank") {
        Some(Reply::Value(Value::Bool(!kotlin_trim(s, true, true).as_str().is_empty())))
    } else if same(name, "contains") {
        Some(Reply::Value(Value::Bool(contains(s, arg_str(h, args, 0).as_str()))))
    } else if same(name, "startsWith") {
        let hit: bool = match utf16_slice_from(s, int_arg(h, args, 1, 0)) {
            Some(tail) => has_prefix(tail.as_str(), arg_str(h, args, 0).as_str()),
            None => false,
        };
        Some(Reply::Value(Value::Bool(hit)))
    } else if same(name, "endsWith") {
        Some(Reply::Value(Value::Bool(has_suffix(s, arg_str(h, args, 0).as_str()))))
    } else if same(name, "indexOf") {
        let k: i64 = index_of_from(s, arg_str(h, args, 0).as_str(), int_arg(h, args, 1, 0));
        Some(Reply::Value(Value::Int(k)))
    } else if same(name, "lastIndexOf") {
        let u: Vec<u16> = units(s);
        let p: Vec<u16> = units(arg_str(h, args, 0).as_str());
        let fit: i128 = u.len() as i128 - p.len() as i128;
        let want: i128 = if args.len() > 1 {
            h.to_int(args[1]) as i128
        } else {
            u.len() as i128 - 1
        };
        let start: i128 = if want < fit {
            want
        } else {
            fit
        };
        Some(Reply::Value(Value::Int(last_index(&u, &p, start))))
    } else if same(name, "equals") {
        let other: String = arg_str(h, args, 0);
        let eq: bool = if truthy_arg(args, 1) {
            same(to_lower(s).as_str(), to_lower(other.as_str()).as_str())
        } else {
            args.len() > 0 && matches!(value_eq(h, recv, args[0]), Some(true))
        };
        Some(Reply::Value(Value::Bool(eq)))
    } else if same(name, "compareTo") {
        let other: String = arg_str(h, args, 0);
        let d: i64 = if truthy_arg(args, 1) {
            difference(
                &units(to_lower(s).as_str()),
                &units(to_lower(other.as_str()).as_str()),
            )
        } else {
            difference(&units(s), &units(other.as_str()))
        };
        Some(Reply::Value(Value::Int(d)))
    } else if same(name, "first") || same(name, "last") {
        let u: Vec<u16> = units(s);
        if u.len() == 0 {
            Some(
                Reply::Fault(
                    "java.util.NoSuchElementException: Char sequence is empty.".to_owned(),
                ),
            )
        } else if same(name, "first") {
            Some(Reply::Value(char_of(u[0] as i64)))
        } else {
            Some(Reply::Value(char_of(u[u.len() - 1] as i64)))
        }
    } else if same(name, "get") {
        let u: Vec<u16> = units(s);
        let i: i64 = int_arg(h, args, 0, 0);
        if 0 <= i && (i as i128) < u.len() as i128 {
            Some(Reply::Value(char_of(u[i as usize] as i64)))
        } else {
            Some(Reply::Fault(sioobe_index(i, u.len())))
        }
    } else {
        None
    }
}

// ── Members that build a text ───────────────────────────────────────────────

/// `s`, `n` times in a row.
pub open spec fn repeated(s: Seq<char>, n: int) -> Seq<char>
    decreases n,
{
    if n <= 0 {
        Seq::empty()
    } else {
        repeated(s, n - 1) + s
    }
}

/// The fill character of a padding: the given `Char`, else a space.
pub open spec fn fill_of(args: Seq<Value>) -> char {
    if args.len() > 1 {
        match code_of(args[1]) {
            Some(c) => if crate::text::is_scalar_code(c) {
                c as char
            } else {
                ' '
            },
            None => ' ',
        }
    } else {
        ' '
    }
}

/// The lesser of a count and a length.
pub open spec fn at_most(n: int, len: int) -> int {
    if n < len {
        n
    } else {
        len
    }
}

/// The `String` members that answer a text.
pub open spec fn text_edit(h: HostView, s: Seq<char>, name: Seq<char>, args: Seq<Value>) -> Option<
    ReplyView,
> {
    let a0 = arg_text(h, args, 0);
    let a1 = arg_text(h, args, 1);
    let u = units_of(s);
    let n = arg_int(h, args, 0, 0);
    if name == "uppercase"@ || name == "toUpperCase"@ {
        Some(ReplyView::Text(upper_case(s)))
    } else if name == "lowercase"@ || name == "toLowerCase"@ {
        Some(ReplyView::Text(lower_case(s)))
    } else if name == "trim"@ {
        Some(ReplyView::Text(trimmed(s, true, true)))
    } else if name == "trimStart"@ {
        Some(ReplyView::Text(trimmed(s, true, false)))
    } else if name == "trimEnd"@ {
        Some(ReplyView::Text(trimmed(s, false, true)))
    } else if name == "plus"@ {
        Some(ReplyView::Text(s + a0))
    } else if name == "replace"@ {
        Some(ReplyView::Text(replaced(s, a0, a1)))
    } else if name == "replaceFirst"@ {
        Some(ReplyView::Text(replaced_first(s, a0, a1)))
    } else if name == "repeat"@ {
        Some(
            if n < 0 {
                ReplyView::Fault(
                    with_number(
                        "java.lang.IllegalArgumentException: Count 'n' must be non-negative, but was "@,
                        n,
                        "."@,
                    ),
                )
            } else {
                ReplyView::Text(repeated(s, n))
            },
        )
    } else if name == "substring"@ || name == "subSequence"@ {
        let end = arg_int(h, args, 1, u.len() as int);
        Some(
            if n < 0 || end > u.len() || n > end {
                ReplyView::Fault(range_message(n, end, u.len() as int))
            } else {
                ReplyView::Text(text_of_units(u.subrange(n, end)))
            },
        )
    } else if name == "removePrefix"@ {
        Some(
            ReplyView::Text(
                if starts_with(s, a0) {
                    s.skip(a0.len() as int)
                } else {
                    s
                },
            ),
        )
    } else if name == "removeSuffix"@ {
        Some(
            ReplyView::Text(
                if ends_with(s, a0) {
                    s.take(s.len() - a0.len())
                } else {
                    s
                },
            ),
        )
    } else if name == "substringBefore"@ {
        Some(ReplyView::Text(before_first(s, a0)))
    } else if name == "substringAfter"@ {
        Some(ReplyView::Text(after_first(s, a0)))
    } else if name == "reversed"@ {
        Some(ReplyView::Text(s.reverse()))
    } else if name == "take"@ || name == "drop"@ || name == "takeLast"@ || name == "dropLast"@ {
        let len = u.len() as int;
        let k = at_most(n, len);
        Some(
            if n < 0 {
                ReplyView::Fault(
                    with_number(
                        "java.lang.IllegalArgumentException: Requested character count "@,
                        n,
                        " is less than zero."@,
                    ),
                )
            } else if name == "take"@ {
                ReplyView::Text(text_of_units(u.subrange(0, k)))
            } else if name == "drop"@ {
                ReplyView::Text(text_of_units(u.subrange(k, len)))
            } else if name == "takeLast"@ {
                ReplyView::Text(text_of_units(u.subrange(len - k, len)))
            } else {
                ReplyView::Text(text_of_units(u.subrange(0, len - k)))
            },
        )
    } else if name == "padStart"@ || name == "padEnd"@ {
        let pad = repeated(seq![fill_of(args)], n - u.len());
        Some(
            if n < 0 {
                ReplyView::Fault(
                    with_number(
                        "java.lang.IllegalArgumentException: Desired length "@,
                        n,
                        " is less than zero."@,
                    ),
                )
            } else if name == "padStart"@ {
                ReplyView::Text(pad + s)
            } else {
                ReplyView::Text(s + pad)
            },
        )
    } else {
        None
    }
}

/// `s`, `n` times in a row.
pub(crate) fn repeat(s: &str, n: i64) -> (r: String)
    ensures
        r@ == repeated(s@, n as int),
{
    let mut r: String = String::new();
    let mut i: i64 = 0;
    while i < n
        invariant
            0 <= i,
            i <= n || (n < 0 && i == 0),
            r@ == repeated(s@, i as int),
        decreases n - i,
    {
        r.append(s);
        i = i + 1;
    }
    r
}

fn reversed(s: &str) -> (r: String)
    ensures
        r@ == s@.reverse(),
{
    let v: Vec<char> = chars_of_str(s);
    let mut r: String = String::new();
    let mut i: usize = v.len();
    while i > 0
        invariant
            i <= v@.len(),
            r@ == v@.reverse().take(v@.len() - i),
        decreases i,
    {
        i = i - 1;
        push_char(&mut r, v[i]);
        assert(v@.reverse().take(v@.len() - i) =~= v@.reverse().take(v@.len() - i - 1).push(
            v@[i as int],
        ));
    }
    assert(v@.reverse().take(v@.len() as int) =~= v@.reverse());
    r
}

fn padding(args: &Vec<Value>, n: i128) -> (r: String)
    requires
        n <= i64::MAX,
    ensures
        r@ == repeated(seq![fill_of(args@)], n as int),
{
    let mut one: String = String::new();
    let fill: char = if args.len() > 1 {
        match char_code(&args[1]) {
            Some(c) => match char_from_code(c as u32) {
                Some(x) => x,
                None => ' ',
            },
            None => ' ',
        }
    } else {
        ' '
    };
    push_char(&mut one, fill);
    assert(one@ =~= seq![fill_of(args@)]);
    if n <= 0 {
        return String::new();
    }
    repeat(one.as_str(), n as i64)
}

fn cut_text(s: &str, name: &str, n: i64) -> (r: Reply)
    requires
        name@ == "take"@ || name@ == "drop"@ || name@ == "takeLast"@ || name@ == "dropLast"@,
    ensures
        r@ == ({
            let u = units_of(s@);
            let len = u.len() as int;
            let k = at_most(n as int, len);
            if n < 0 {
                ReplyView::Fault(
                    with_number(
                        "java.lang.IllegalArgumentException: Requested character count "@,
                        n as int,
                        " is less than zero."@,
                    ),
                )
            } else if name@ == "take"@ {
                ReplyView::Text(text_of_units(u.subrange(0, k)))
            } else if name@ == "drop"@ {
                ReplyView::Text(text_of_units(u.subrange(k, len)))
            } else if name@ == "takeLast"@ {
                ReplyView::Text(text_of_units(u.subrange(len - k, len)))
            } else {
                ReplyView::Text(text_of_units(u.subrange(0, len - k)))
            }
        }),
{
    if n < 0 {
        return Reply::Fault(
            number_message(
                "java.lang.IllegalArgumentException: Requested character count ",
                n,
                " is less than zero.",
            ),
        );
    }
    let u: Vec<u16> = units(s);
    let k: usize = if (n as i128) < u.len() as i128 {
        n as usize
    } else {
        u.len()
    };
    if same(name, "take") {
        Reply::Text(slice_text(&u, 0, k))
    } else if same(name, "drop") {
        Reply::Text(slice_text(&u, k, u.len()))
    } else if same(name, "takeLast") {
        Reply::Text(slice_text(&u, u.len() - k, u.len()))
    } else {
        Reply::Text(slice_text(&u, 0, u.len() - k))
    }
}

fn edit(h: &Host, s: &str, name: &str, args: &Vec<Value>) -> (r: Option<Reply>)
    ensures
        reply_view(r) == text_edit(h@, s@, name@, args@),
{
    if same(name, "uppercase") || same(name, "toUpperCase") {
        Some(Reply::Text(to_upper(s)))
    } else if same(name, "lowercase") || same(name, "toLowerCase") {
        Some(Reply::Text(to_lower(s)))
    } else if same(name, "trim") {
        Some(Reply::Text(kotlin_trim(s, true, true)))
    } else if same(name, "trimStart") {
        Some(Reply::Text(kotlin_trim(s, true, false)))
    } else if same(name, "trimEnd") {
        Some(Reply::Text(kotlin_trim(s, false, true)))
    } else if same(name, "plus") {
        Some(Reply::Text(concat2(s, arg_str(h, args, 0).as_str())))
    } else if same(name, "replace") {
        let a: String = arg_str(h, args, 0);
        let b: String = arg_str(h, args, 1);
        Some(Reply::Text(replace_all(s, a.as_str(), b.as_str())))
    } else if same(name, "replaceFirst") {
        let a: String = arg_str(h, args, 0);
        let b: String = arg_str(h, args, 1);
        Some(Reply::Text(replace_first(s, a.as_str(), b.as_str())))
    } else if same(name, "repeat") {
        let n: i64 = int_arg(h, args, 0, 0);
        if n < 0 {
            Some(
                Reply::Fault(
                    number_message(
                        "java.lang.IllegalArgumentException: Count 'n' must be non-negative, but was ",
                        n,
                        ".",
                    ),
                ),
            )
        } else {
            Some(Reply::Text(repeat(s, n)))
        }
    } else if same(name, "substring") || same(name, "subSequence") {
        let u: Vec<u16> = units(s);
        let n: i64 = int_arg(h, args, 0, 0);
        if args.len() > 1 {
            let end: i64 = h.to_int(args[1]);
            if n < 0 || end as i128 > u.len() as i128 || n > end {
                Some(Reply::Fault(sioobe_range(n, end, u.len())))
            } else {
                Some(Reply::Text(slice_text(&u, n as usize, end as usize)))
            }
        } else if n < 0 || n as i128 > u.len() as i128 {
            Some(Reply::Fault(range_to_end(n, u.len())))
        } else {
            Some(Reply::Text(slice_text(&u, n as usize, u.len())))
        }
    } else if same(name, "removePrefix") {
        let p: String = arg_str(h, args, 0);
        if has_prefix(s, p.as_str()) {
            let v: Vec<char> = chars_of_str(s);
            let k: usize = chars_of_str(p.as_str()).len();
            assert(v@.subrange(k as int, v@.len() as int) =~= s@.skip(k as int));
            Some(Reply::Text(string_of(&v, k, v.len())))
        } else {
            Some(Reply::Text(s.to_owned()))
        }
    } else if same(name, "removeSuffix") {
        let p: String = arg_str(h, args, 0);
        if has_suffix(s, p.as_str()) {
            let v: Vec<char> = chars_of_str(s);
            let k: usize = chars_of_str(p.as_str()).len();
            assert(v@.subrange(0, v@.len() - k) =~= s@.take(s@.len() - k));
            Some(Reply::Text(string_of(&v, 0, v.len() - k)))
        } else {
            Some(Reply::Text(s.to_owned()))
        }
    } else if same(name, "substringBefore") {
        Some(Reply::Text(text_before(s, arg_str(h, args, 0).as_str())))
    } else if same(name, "substringAfter") {
        Some(Reply::Text(text_after(s, arg_str(h, args, 0).as_str())))
    } else if same(name, "reversed") {
        Some(Reply::Text(reversed(s)))
    } else if same(name, "take") || same(name, "drop") || same(name, "takeLast") || same(
        name,
        "dropLast",
    ) {
        Some(cut_text(s, name, int_arg(h, args, 0, 0)))
    } else if same(name, "padStart") || same(name, "padEnd") {
        let n: i64 = int_arg(h, args, 0, 0);
        if n < 0 {
            return Some(
                Reply::Fault(
                    number_message(
                        "java.lang.IllegalArgumentException: Desired length ",
                        n,
                        " is less than zero.",
                    ),
                ),
            );
        }
        let pad: String = padding(args, n as i128 - units(s).len() as i128);
        if same(name, "padStart") {
            Some(Reply::Text(concat2(pad.as_str(), s)))
        } else {
            Some(Reply::Text(concat2(s, pad.as_str())))
        }
    } else {
        None
    }
}

fn range_to_end(from: i64, len: usize) -> (s: String)
    ensures
        s@ == range_message(from as int, len as int, len as int),
{
    let head: String = concat2(
        "java.lang.StringIndexOutOfBoundsException: Range [",
        int_text(from).as_str(),
    );
    let mid: String = concat3(head.as_str(), ", ", size_text(len).as_str());
    concat3(mid.as_str(), ") out of bounds for length ", size_text(len).as_str())
}

// ── Members that build a list, and numeric parses ───────────────────────────

/// A line without the carriage return before its line feed.
pub open spec fn without_cr(s: Seq<char>) -> Seq<char> {
    if s.len() > 0 && s.last() == '\r' {
        s.drop_last()
    } else {
        s
    }
}

/// The arguments as texts.
pub open spec fn arg_texts(h: HostView, args: Seq<Value>) -> Seq<Seq<char>> {
    args.map_values(|v: Value| text_of(h, v))
}

/// The characters of a text as `Char` values, by UTF-16 code unit.
pub open spec fn char_values(s: Seq<char>) -> Seq<Value> {
    units_of(s).map_values(|u: u16| char_value(u as int))
}

/// The `String` members that answer a list, and the numeric parses.
pub open spec fn text_parts(h: HostView, s: Seq<char>, name: Seq<char>, args: Seq<Value>) -> Option<
    ReplyView,
> {
    if name == "split"@ || name == "splitToSequence"@ {
        Some(
            ReplyView::Texts(
                if args.len() <= 1 {
                    pieces(s, arg_text(h, args, 0))
                } else {
                    split_any(s, arg_texts(h, args), 0)
                },
            ),
        )
    } else if name == "lines"@ {
        Some(
            ReplyView::Texts(
                pieces(s, seq!['\n']).map_values(|l: Seq<char>| without_cr(l)),
            ),
        )
    } else if name == "toCharArray"@ {
        Some(ReplyView::Object(ObjView::Array { items: char_values(s), desc: "[C"@ }))
    } else if name == "toInt"@ || name == "toLong"@ || name == "toByte"@ || name == "toShort"@ {
        Some(radix_reply(h, s, args, width_of(name)))
    } else if name == "toIntOrNull"@ {
        Some(radix_reply_or_null(h, s, args, 32))
    } else if name == "toLongOrNull"@ {
        Some(radix_reply_or_null(h, s, args, 64))
    } else if name == "toByteOrNull"@ {
        Some(radix_reply_or_null(h, s, args, 8))
    } else if name == "toShortOrNull"@ {
        Some(radix_reply_or_null(h, s, args, 16))
    } else if name == "toDouble"@ || name == "toFloat"@ {
        Some(
            match number_of(s) {
                Some(t) => ReplyView::Read(t),
                None => ReplyView::Fault(number_fault(s)),
            },
        )
    } else if name == "toDoubleOrNull"@ || name == "toFloatOrNull"@ {
        Some(
            match number_of(s) {
                Some(t) => ReplyView::Read(t),
                None => ReplyView::Value(Value::Undef),
            },
        )
    } else {
        None
    }
}

/// The bit width the `String.toXxx` member named `name` parses into.
pub open spec fn width_of(name: Seq<char>) -> int {
    if name == "toByte"@ {
        8
    } else if name == "toShort"@ {
        16
    } else if name == "toLong"@ {
        64
    } else {
        32
    }
}

/// The bit width the `String.toXxx` member named `name` parses into.
pub fn int_width_of(name: &str) -> (w: u32)
    ensures
        w == width_of(name@),
        w == 8 || w == 16 || w == 32 || w == 64,
{
    if same(name, "toByte") {
        8
    } else if same(name, "toShort") {
        16
    } else if same(name, "toLong") {
        64
    } else {
        32
    }
}

/// A string's characters as `Char` values, indexed by UTF-16 code unit: the same
/// basis `String.length` and `s[i]` use.
pub fn chars_of(s: &str) -> (r: Vec<Value>)
    ensures
        r@ == char_values(s@),
{
    let u: Vec<u16> = units(s);
    let mut r: Vec<Value> = Vec::new();
    let mut i: usize = 0;
    while i < u.len()
        invariant
            i <= u@.len(),
            u@ == units_of(s@),
            r@ == char_values(s@).take(i as int),
        decreases u.len() - i,
    {
        r.push(char_of(u[i] as i64));
        i = i + 1;
        assert(char_values(s@).take(i as int) =~= char_values(s@).take(i - 1).push(
            char_value(u@[i - 1] as int),
        ));
    }
    assert(char_values(s@).take(i as int) =~= char_values(s@));
    r
}

fn texts_of(h: &Host, args: &Vec<Value>) -> (r: Vec<String>)
    ensures
        texts_view(r@) == arg_texts(h@, args@),
{
    let mut r: Vec<String> = Vec::new();
    let mut i: usize = 0;
    while i < args.len()
        invariant
            i <= args@.len(),
            texts_view(r@) == arg_texts(h@, args@).take(i as int),
        decreases args.len() - i,
    {
        let ghost before = texts_view(r@);
        r.push(kotlin_string(h, args[i]));
        i = i + 1;
        assert(texts_view(r@) =~= before.push(text_of(h@, args@[i - 1])));
        assert(arg_texts(h@, args@).take(i as int) =~= arg_texts(h@, args@).take(i - 1).push(
            text_of(h@, args@[i - 1]),
        ));
    }
    assert(arg_texts(h@, args@).take(i as int) =~= arg_texts(h@, args@));
    r
}

fn lines_of(s: &str) -> (r: Vec<String>)
    ensures
        texts_view(r@) == pieces(s@, seq!['\n']).map_values(|l: Seq<char>| without_cr(l)),
{
    let nl: Vec<char> = vec!['\n'];
    assert(nl@ =~= seq!['\n']);
    let parts: Vec<String> = split(&chars_of_str(s), &nl);
    let ghost want = texts_view(parts@).map_values(|l: Seq<char>| without_cr(l));
    let mut r: Vec<String> = Vec::new();
    let mut i: usize = 0;
    while i < parts.len()
        invariant
            i <= parts@.len(),
            want == texts_view(parts@).map_values(|l: Seq<char>| without_cr(l)),
            texts_view(r@) == want.take(i as int),
        decreases parts.len() - i,
    {
        let ghost before = texts_view(r@);
        let v: Vec<char> = chars_of_str(parts[i].as_str());
        let line: String = if v.len() > 0 && v[v.len() - 1] == '\r' {
            assert(v@.subrange(0, v@.len() - 1) =~= v@.drop_last());
            string_of(&v, 0, v.len() - 1)
        } else {
            parts[i].as_str().to_owned()
        };
        let ghost t = line@;
        r.push(line);
        i = i + 1;
        assert(texts_view(r@) =~= before.push(t));
        assert(t == without_cr(parts@[i - 1]@));
        assert(want.take(i as int) =~= want.take(i - 1).push(t));
    }
    assert(want.take(i as int) =~= want);
    r
}

fn number_reply(s: &str, or_null: bool) -> (r: Reply)
    ensures
        r@ == (match number_of(s@) {
            Some(t) => ReplyView::Read(t),
            None => if or_null {
                ReplyView::Value(Value::Undef)
            } else {
                ReplyView::Fault(number_fault(s@))
            },
        }),
{
    match parse_number(s) {
        Some(t) => Reply::Read(t),
        None => if or_null {
            Reply::Value(Value::Undef)
        } else {
            Reply::Fault(crate::numtext::number_failure(s))
        },
    }
}

fn parsed(h: &Host, s: &str, args: &Vec<Value>, bits: u32, or_null: bool) -> (r: Reply)
    requires
        bits == 8 || bits == 16 || bits == 32 || bits == 64,
    ensures
        r@ == (if or_null {
            radix_reply_or_null(h@, s@, args@, bits as int)
        } else {
            radix_reply(h@, s@, args@, bits as int)
        }),
{
    match parse_radix(h, s, args, bits) {
        Ok(n) => Reply::Value(Value::Int(n)),
        Err(ParseFail::Radix(m)) => Reply::Fault(m),
        Err(ParseFail::Number(m)) => if or_null {
            Reply::Value(Value::Undef)
        } else {
            Reply::Fault(m)
        },
    }
}

fn parts(h: &Host, s: &str, name: &str, args: &Vec<Value>) -> (r: Option<Reply>)
    ensures
        reply_view(r) == text_parts(h@, s@, name@, args@),
{
    if same(name, "split") || same(name, "splitToSequence") {
        if args.len() <= 1 {
            let d: String = arg_str(h, args, 0);
            Some(Reply::Texts(split(&chars_of_str(s), &chars_of_str(d.as_str()))))
        } else {
            let ds: Vec<String> = texts_of(h, args);
            Some(Reply::Texts(split_at_any(&chars_of_str(s), &ds)))
        }
    } else if same(name, "lines") {
        Some(Reply::Texts(lines_of(s)))
    } else if same(name, "toCharArray") {
        Some(Reply::Object(HeapObj::Array { items: chars_of(s), desc: "[C".to_owned() }))
    } else if same(name, "toInt") || same(name, "toLong") || same(name, "toByte") || same(
        name,
        "toShort",
    ) {
        Some(parsed(h, s, args, int_width_of(name), false))
    } else if same(name, "toIntOrNull") {
        Some(parsed(h, s, args, 32, true))
    } else if same(name, "toLongOrNull") {
        Some(parsed(h, s, args, 64, true))
    } else if same(name, "toByteOrNull") {
        Some(parsed(h, s, args, 8, true))
    } else if same(name, "toShortOrNull") {
        Some(parsed(h, s, args, 16, true))
    } else if same(name, "toDouble") || same(name, "toFloat") {
        Some(number_reply(s, false))
    } else if same(name, "toDoubleOrNull") || same(name, "toFloatOrNull") {
        Some(number_reply(s, true))
    } else {
        None
    }
}

/// The `kotlin.String` members that need no lambda and are not shared with every
/// type or with collections. `format` is among the others.
pub open spec fn text_member(
    h: HostView,
    recv: Value,
    s: Seq<char>,
    name: Seq<char>,
    args: Seq<Value>,
) -> Option<ReplyView> {
    match text_query(h, recv, s, name, args) {
        Some(r) => Some(r),
        None => match text_edit(h, s, name, args) {
            Some(r) => Some(r),
            None => text_parts(h, s, name, args),
        },
    }
}

/// The `kotlin.String` members that need no lambda; `None` when `name` is none
/// of them. `recv` is the receiver and `s` its text.
pub fn string_member(h: &Host, recv: Value, s: &str, name: &str, args: &Vec<Value>) -> (r: Option<
    Reply,
>)
    ensures
        reply_view(r) == text_member(h@, recv, s@, name@, args@),
{
    match query(h, recv, s, name, args) {
        Some(r) => Some(r),
        None => match edit(h, s, name, args) {
            Some(r) => Some(r),
            None => parts(h, s, name, args),
        },
    }
}

// ── Laws ────────────────────────────────────────────────────────────────────

/// Trimming twice is trimming once.
pub proof fn law_trim_idempotent(s: Seq<char>, start: bool, end: bool)
    ensures
        trimmed(trimmed(s, start, end), start, end) == trimmed(s, start, end),
{
    let a = if start {
        trimmed_start(s)
    } else {
        s
    };
    if start {
        lemma_trim_start_done(s);
    }
    if end {
        lemma_trim_end_done(a);
        if start {
            lemma_trim_end_keeps_start(a);
        }
    }
}

proof fn lemma_trim_start_done(s: Seq<char>)
    ensures
        trimmed_start(s).len() > 0 ==> !is_white(trimmed_start(s)[0]),
    decreases s.len(),
{
    if s.len() > 0 && is_white(s[0]) {
        lemma_trim_start_done(s.skip(1));
    }
}

proof fn lemma_trim_end_done(s: Seq<char>)
    ensures
        trimmed_end(s).len() > 0 ==> !is_white(trimmed_end(s).last()),
    decreases s.len(),
{
    if s.len() > 0 && is_white(s.last()) {
        lemma_trim_end_done(s.drop_last());
    }
}

proof fn lemma_trim_end_keeps_start(s: Seq<char>)
    requires
        s.len() > 0 ==> !is_white(s[0]),
    ensures
        trimmed_end(s).len() > 0 ==> !is_white(trimmed_end(s)[0]),
    decreases s.len(),
{
    if s.len() > 0 && is_white(s.last()) {
        lemma_trim_end_keeps_start(s.drop_last());
    }
}

/// `take(n)` and `drop(n)` cut a text in two: before the character `j` that the
/// first `n` code units end at. A cut through a character is left out: neither
/// side keeps that character.
pub proof fn law_take_drop(h: HostView, s: Seq<char>, args: Seq<Value>, j: int)
    requires
        arg_int(h, args, 0, 0) >= 0,
        0 <= j <= s.len(),
        at_most(arg_int(h, args, 0, 0), unit_len(s)) == unit_len(s.take(j)),
    ensures
        text_edit(h, s, "take"@, args) == Some(ReplyView::Text(s.take(j))),
        text_edit(h, s, "drop"@, args) == Some(ReplyView::Text(s.skip(j))),
        s.take(j) + s.skip(j) == s,
{
    reveal_strlit("uppercase");
    reveal_strlit("toUpperCase");
    reveal_strlit("lowercase");
    reveal_strlit("toLowerCase");
    reveal_strlit("trim");
    reveal_strlit("trimStart");
    reveal_strlit("trimEnd");
    reveal_strlit("plus");
    reveal_strlit("replace");
    reveal_strlit("replaceFirst");
    reveal_strlit("repeat");
    reveal_strlit("substring");
    reveal_strlit("subSequence");
    reveal_strlit("removePrefix");
    reveal_strlit("removeSuffix");
    reveal_strlit("substringBefore");
    reveal_strlit("substringAfter");
    reveal_strlit("reversed");
    reveal_strlit("take");
    reveal_strlit("drop");
    assert("uppercase"@.len() == 9);
    assert("toUpperCase"@.len() == 11);
    assert("lowercase"@.len() == 9);
    assert("toLowerCase"@.len() == 11);
    assert("trim"@.len() == 4);
    assert("trimStart"@.len() == 9);
    assert("trimEnd"@.len() == 7);
    assert("plus"@.len() == 4);
    assert("replace"@.len() == 7);
    assert("replaceFirst"@.len() == 12);
    assert("repeat"@.len() == 6);
    assert("substring"@.len() == 9);
    assert("subSequence"@.len() == 11);
    assert("removePrefix"@.len() == 12);
    assert("removeSuffix"@.len() == 12);
    assert("substringBefore"@.len() == 15);
    assert("substringAfter"@.len() == 14);
    assert("reversed"@.len() == 8);
    assert("take"@.len() == 4);
    assert("drop"@.len() == 4);
    assert("take"@[1] == 'a');
    assert("trim"@[1] == 'r');
    assert("take"@[0] == 't');
    assert("plus"@[0] == 'p');
    assert("drop"@[0] == 'd');
    assert("trim"@[0] == 't');
    let u = units_of(s);
    let k = unit_len(s.take(j));
    assert(s.take(j) + s.skip(j) =~= s);
    law_units_concat(s.take(j), s.skip(j));
    assert(u.subrange(0, k) =~= units_of(s.take(j)));
    assert(u.subrange(k, u.len() as int) =~= units_of(s.skip(j)));
    law_utf16_round_trip(s.take(j));
    law_utf16_round_trip(s.skip(j));
}

/// The numeric parses raise on a text that is no such number, and their `…OrNull`
/// forms answer null there and the same otherwise. A radix that does not exist
/// raises in both.
pub proof fn law_or_null_parses(h: HostView, s: Seq<char>, args: Seq<Value>)
    requires
        2 <= radix_of(h, args) <= 36,
    ensures
        ({
            let parsed = |name: Seq<char>| text_parts(h, s, name, args)->0;
            &&& parsed("toIntOrNull"@) == parsed("toInt"@).or_null()
            &&& parsed("toLongOrNull"@) == parsed("toLong"@).or_null()
            &&& parsed("toByteOrNull"@) == parsed("toByte"@).or_null()
            &&& parsed("toShortOrNull"@) == parsed("toShort"@).or_null()
            &&& parsed("toDoubleOrNull"@) == parsed("toDouble"@).or_null()
            &&& parsed("toFloatOrNull"@) == parsed("toFloat"@).or_null()
        }),
{
    reveal_strlit("split");
    reveal_strlit("splitToSequence");
    reveal_strlit("lines");
    reveal_strlit("toCharArray");
    reveal_strlit("toInt");
    reveal_strlit("toLong");
    reveal_strlit("toByte");
    reveal_strlit("toShort");
    reveal_strlit("toIntOrNull");
    reveal_strlit("toLongOrNull");
    reveal_strlit("toByteOrNull");
    reveal_strlit("toShortOrNull");
    reveal_strlit("toDouble");
    reveal_strlit("toFloat");
    reveal_strlit("toDoubleOrNull");
    reveal_strlit("toFloatOrNull");
    assert("split"@.len() == 5);
    assert("splitToSequence"@.len() == 15);
    assert("lines"@.len() == 5);
    assert("toCharArray"@.len() == 11);
    assert("toInt"@.len() == 5);
    assert("toLong"@.len() == 6);
    assert("toByte"@.len() == 6);
    assert("toShort"@.len() == 7);
    assert("toIntOrNull"@.len() == 11);
    assert("toLongOrNull"@.len() == 12);
    assert("toByteOrNull"@.len() == 12);
    assert("toShortOrNull"@.len() == 13);
    assert("toDouble"@.len() == 8);
    assert("toFloat"@.len() == 7);
    assert("toDoubleOrNull"@.len() == 14);
    assert("toFloatOrNull"@.len() == 13);
    assert("split"@[0] == 's');
    assert("lines"@[0] == 'l');
    assert("toCharArray"@[2] == 'C');
    assert("toInt"@[0] == 't');
    assert("toLong"@[2] == 'L');
    assert("toByte"@[2] == 'B');
    assert("toShort"@[2] == 'S');
    assert("toIntOrNull"@[2] == 'I');
    assert("toLongOrNull"@[2] == 'L');
    assert("toByteOrNull"@[2] == 'B');
    assert("toShortOrNull"@[2] == 'S');
    assert("toFloat"@[2] == 'F');
    assert("toFloatOrNull"@[2] == 'F');
}

} // verus!
