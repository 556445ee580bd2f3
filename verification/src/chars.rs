//! The members of `kotlin.Char`.
use crate::compare::value_eq;
use crate::display::char_string;
use crate::host::Host;
use crate::receiver::unresolved_text;
use crate::reply::Reply;
use crate::strings::kotlin_is_whitespace;
use crate::text::{char_from_code, chars_of_str, concat3, push_char, same};
use crate::value::{char_code, char_of, Value};
use vstd::prelude::*;

verus! {

use crate::compare::{budget, eq_within};
use crate::display::code_text;
use crate::host::HostView;
use crate::receiver::unresolved;
use crate::reply::ReplyView;
use crate::strings::{as_int, is_white};
use crate::value::{char_value, code_of};

/// Whether the Unicode tables class a character as numeric.
pub uninterp spec fn unicode_numeric(c: char) -> bool;

/// Whether the Unicode tables class a character as alphabetic.
pub uninterp spec fn unicode_alphabetic(c: char) -> bool;

/// Whether the Unicode tables class a character as upper case.
pub uninterp spec fn unicode_upper(c: char) -> bool;

/// Whether the Unicode tables class a character as lower case.
pub uninterp spec fn unicode_lower(c: char) -> bool;

/// The upper-case mapping of a character, which may be several.
pub uninterp spec fn upper_mapping(c: char) -> Seq<char>;

/// The lower-case mapping of a character, which may be several.
pub uninterp spec fn lower_mapping(c: char) -> Seq<char>;

/// `char::is_numeric`: whether the character has a general category for
/// numbers.
#[verifier::external_body]
fn is_numeric(c: char) -> (r: bool)
    ensures
        r == unicode_numeric(c),
{
    c.is_numeric()
}

/// `char::is_alphabetic`: whether the character has the Alphabetic property.
#[verifier::external_body]
fn is_alphabetic(c: char) -> (r: bool)
    ensures
        r == unicode_alphabetic(c),
{
    c.is_alphabetic()
}

/// `char::is_uppercase`: whether the character has the Uppercase property.
#[verifier::external_body]
fn is_uppercase(c: char) -> (r: bool)
    ensures
        r == unicode_upper(c),
{
    c.is_uppercase()
}

/// `char::is_lowercase`: whether the character has the Lowercase property.
#[verifier::external_body]
fn is_lowercase(c: char) -> (r: bool)
    ensures
        r == unicode_lower(c),
{
    c.is_lowercase()
}

/// `char::to_uppercase`: the upper-case mapping of the character, as a text.
#[verifier::external_body]
fn uppercase_text(c: char) -> (s: String)
    ensures
        s@ == upper_mapping(c),
{
    c.to_uppercase().to_string()
}

/// `char::to_lowercase`: the lower-case mapping of the character, as a text.
#[verifier::external_body]
fn lowercase_text(c: char) -> (s: String)
    ensures
        s@ == lower_mapping(c),
{
    c.to_lowercase().to_string()
}

/// The character of a code unit; a surrogate has none of its own.
pub open spec fn scalar_of(code: int) -> char {
    if crate::text::is_scalar_code(code) {
        code as char
    } else {
        '\u{fffd}'
    }
}

/// A mapping to exactly one character, or the character itself.
pub open spec fn single_mapping(c: char, mapped: Seq<char>) -> char {
    if mapped.len() == 1 {
        mapped[0]
    } else {
        c
    }
}

pub open spec fn sign_of(n: int) -> int {
    if n < 0 {
        -1
    } else if n > 0 {
        1
    } else {
        0
    }
}

/// The members of the `Char` with code unit `code`.
pub open spec fn char_member(h: HostView, code: int, name: Seq<char>, args: Seq<Value>) -> ReplyView {
    let c = scalar_of(code);
    let other = if args.len() > 0 {
        h.num_of(args[0])
    } else {
        0
    };
    if name == "code"@ || name == "hashCode"@ {
        ReplyView::Value(as_int(code))
    } else if name == "toString"@ {
        ReplyView::Text(code_text(code))
    } else if name == "equals"@ {
        ReplyView::Value(
            Value::Bool(
                args.len() > 0 && eq_within(h, char_value(code), args[0], budget(h)) == Some(true),
            ),
        )
    } else if name == "compareTo"@ {
        ReplyView::Value(as_int(sign_of(code - other)))
    } else if name == "plus"@ {
        ReplyView::Value(char_value(code + other))
    } else if name == "minus"@ {
        ReplyView::Value(
            if args.len() > 0 && code_of(args[0]) is Some {
                as_int(code - other)
            } else {
                char_value(code - other)
            },
        )
    } else if name == "isDigit"@ {
        ReplyView::Value(Value::Bool(unicode_numeric(c)))
    } else if name == "isLetter"@ {
        ReplyView::Value(Value::Bool(unicode_alphabetic(c)))
    } else if name == "isLetterOrDigit"@ {
        ReplyView::Value(Value::Bool(unicode_alphabetic(c) || unicode_numeric(c)))
    } else if name == "isWhitespace"@ {
        ReplyView::Value(Value::Bool(is_white(c)))
    } else if name == "isUpperCase"@ {
        ReplyView::Value(Value::Bool(unicode_upper(c)))
    } else if name == "isLowerCase"@ {
        ReplyView::Value(Value::Bool(unicode_lower(c)))
    } else if name == "uppercaseChar"@ {
        ReplyView::Value(char_value(single_mapping(c, upper_mapping(c)) as int))
    } else if name == "lowercaseChar"@ {
        ReplyView::Value(char_value(single_mapping(c, lower_mapping(c)) as int))
    } else if name == "uppercase"@ {
        ReplyView::Text(upper_mapping(c))
    } else if name == "lowercase"@ {
        ReplyView::Text(lower_mapping(c))
    } else if name == "digitToInt"@ {
        if '0' <= c <= '9' {
            ReplyView::Value(as_int((c as int) - ('0' as int)))
        } else {
            ReplyView::Fault(
                "java.lang.IllegalArgumentException: Char "@ + seq![c] + " is not a decimal digit"@,
            )
        }
    } else {
        ReplyView::Fault(unresolved(name, "Char"@))
    }
}

fn single(c: char, mapped: String) -> (r: char)
    ensures
        r == single_mapping(c, mapped@),
{
    let v: Vec<char> = chars_of_str(mapped.as_str());
    if v.len() == 1 {
        v[0]
    } else {
        c
    }
}

fn low16(n: i64) -> (r: i64)
    ensures
        r == n as int % 0x10000,
        0 <= r < 0x10000,
{
    let low: i64 = n % 0x10000;
    if low < 0 {
        low + 0x10000
    } else {
        low
    }
}

proof fn lemma_char_sum(a: int, b: int)
    ensures
        char_value(a + b) == char_value(a + b % 0x10000),
        char_value(a - b) == char_value(a - b % 0x10000),
{
}

/// The members of the `Char` with code unit `code`. The classification goes by
/// the Unicode tables; a surrogate half is neither letter nor digit.
pub fn char_method(h: &Host, code: i64, name: &str, args: &Vec<Value>) -> (r: Reply)
    requires
        0 <= code < 0x10000,
    ensures
        r@ == char_member(h@, code as int, name@, args@),
{
    let c: char = match char_from_code(code as u32) {
        Some(c) => c,
        None => '\u{fffd}',
    };
    let other: i64 = if args.len() > 0 {
        h.num_of(args[0])
    } else {
        0
    };
    if same(name, "code") || same(name, "hashCode") {
        Reply::Value(Value::Int(code))
    } else if same(name, "toString") {
        Reply::Text(char_string(code))
    } else if same(name, "equals") {
        let eq: bool = args.len() > 0 && matches!(value_eq(h, char_of(code), args[0]), Some(true));
        Reply::Value(Value::Bool(eq))
    } else if same(name, "compareTo") {
        let s: i64 = if code < other {
            -1
        } else if code > other {
            1
        } else {
            0
        };
        Reply::Value(Value::Int(s))
    } else if same(name, "plus") {
        proof {
            lemma_char_sum(code as int, other as int);
        }
        Reply::Value(char_of(code + low16(other)))
    } else if same(name, "minus") {
        if args.len() > 0 {
            if let Some(k) = char_code(&args[0]) {
                return Reply::Value(Value::Int(code - k));
            }
        }
        proof {
            lemma_char_sum(code as int, other as int);
        }
        Reply::Value(char_of(code - low16(other)))
    } else if same(name, "isDigit") {
        Reply::Value(Value::Bool(is_numeric(c)))
    } else if same(name, "isLetter") {
        Reply::Value(Value::Bool(is_alphabetic(c)))
    } else if same(name, "isLetterOrDigit") {
        Reply::Value(Value::Bool(is_alphabetic(c) || is_numeric(c)))
    } else if same(name, "isWhitespace") {
        Reply::Value(Value::Bool(kotlin_is_whitespace(c)))
    } else if same(name, "isUpperCase") {
        Reply::Value(Value::Bool(is_uppercase(c)))
    } else if same(name, "isLowerCase") {
        Reply::Value(Value::Bool(is_lowercase(c)))
    } else if same(name, "uppercaseChar") {
        Reply::Value(char_of(single(c, uppercase_text(c)) as u32 as i64))
    } else if same(name, "lowercaseChar") {
        Reply::Value(char_of(single(c, lowercase_text(c)) as u32 as i64))
    } else if same(name, "uppercase") {
        Reply::Text(uppercase_text(c))
    } else if same(name, "lowercase") {
        Reply::Text(lowercase_text(c))
    } else if same(name, "digitToInt") {
        if '0' <= c && c <= '9' {
            Reply::Value(Value::Int(c as u32 as i64 - 48))
        } else {
            let mut one: String = String::new();
            push_char(&mut one, c);
            assert(one@ =~= seq![c]);
            Reply::Fault(
                concat3(
                    "java.lang.IllegalArgumentException: Char ",
                    one.as_str(),
                    " is not a decimal digit",
                ),
            )
        }
    } else {
        Reply::Fault(unresolved_text(name, "Char"))
    }
}

} // verus!
