//! What the exceptions of the standard library say.
use crate::host::ListImpl;
use crate::receiver::SeqKind;
use crate::value::Value;
use vstd::prelude::*;

verus! {

use crate::display::text_of;
use crate::host::HostView;
use crate::laws::names::lemma_names;
use crate::numbers::empty_range;
use crate::numtext::{malformed_message, number_fault, radix_message, width_message};
use crate::ops::negative_size;
use crate::radix::decimal;
use crate::receiver::{extremum_reply, index_fault_message, join_text, unresolved, window_fault};
use crate::reply::ReplyView;
use crate::search::{ends_with, joined};
use crate::sequences::{count_fault, sub_list};
use crate::strings::{index_message, range_message, text_member};

/// An index outside a text, a list, an array or a sequence is named with the length
/// it is outside of, by the exception of its kind.
pub proof fn law_indices_outside(i: int, n: int)
    ensures
        index_message(i, n) == "java.lang.StringIndexOutOfBoundsException: Index "@ + decimal(i)
            + " out of bounds for length "@ + decimal(n),
        index_fault_message(SeqKind::Chars, None, i, n) == index_message(i, n),
        index_fault_message(SeqKind::List, None, i, n) == "java.lang.IndexOutOfBoundsException"@
            + ": Index "@ + decimal(i) + " out of bounds for length "@ + decimal(n),
        index_fault_message(SeqKind::Array, None, i, n)
            == "java.lang.ArrayIndexOutOfBoundsException"@ + ": Index "@ + decimal(i)
            + " out of bounds for length "@ + decimal(n),
        index_fault_message(SeqKind::Hashed, None, i, n)
            == "java.lang.IndexOutOfBoundsException: Collection doesn't contain element at index "@
            + decimal(i) + "."@,
        index_fault_message(SeqKind::Lazy, None, i, n)
            == "java.lang.IndexOutOfBoundsException: Sequence doesn't contain element at index "@
            + decimal(i) + "."@,
{
}

/// A read-only list words it by the class that stands behind it.
pub proof fn law_indices_outside_literals(i: int, n: int)
    ensures
        index_fault_message(SeqKind::List, Some(ListImpl::Literal), i, 0)
            == "java.lang.IndexOutOfBoundsException: Empty list doesn't contain element at index "@
            + decimal(i) + "."@,
        index_fault_message(SeqKind::List, Some(ListImpl::Literal), i, 1)
            == "java.lang.IndexOutOfBoundsException: Index: "@ + decimal(i) + ", Size: 1"@,
        n > 1 ==> index_fault_message(SeqKind::List, Some(ListImpl::Literal), i, n)
            == "java.lang.ArrayIndexOutOfBoundsException"@ + ": Index "@ + decimal(i)
            + " out of bounds for length "@ + decimal(n),
        n > 1 ==> index_fault_message(SeqKind::List, Some(ListImpl::ReadOnly), i, n)
            == "java.lang.IndexOutOfBoundsException"@ + ": Index "@ + decimal(i)
            + " out of bounds for length "@ + decimal(n),
        index_fault_message(SeqKind::List, Some(ListImpl::Builder), i, n)
            == "java.lang.IndexOutOfBoundsException: index: "@ + decimal(i) + ", size: "@ + decimal(
            n,
        ),
{
}

/// A part that reaches outside is named with both its ends.
pub proof fn law_parts_outside(items: Seq<Value>, from: int, to: int, n: int)
    ensures
        range_message(from, to, n) == "java.lang.StringIndexOutOfBoundsException: Range ["@
            + decimal(from) + ", "@ + decimal(to) + ") out of bounds for length "@ + decimal(n),
        from < 0 ==> sub_list(items, from, to) == ReplyView::Fault(
            "java.lang.IndexOutOfBoundsException: fromIndex = "@ + decimal(from) + ""@,
        ),
        from >= 0 && to > items.len() ==> sub_list(items, from, to) == ReplyView::Fault(
            "java.lang.IndexOutOfBoundsException: toIndex = "@ + decimal(to) + ""@,
        ),
        0 <= to < from && to <= items.len() ==> sub_list(items, from, to) == ReplyView::Fault(
            "java.lang.IllegalArgumentException: fromIndex("@ + decimal(from) + ") > toIndex("@
                + decimal(to) + ")"@,
        ),
{
}

/// What has no element says so, and what no element matches too.
pub proof fn law_nothing_found()
    ensures
        SeqKind::List.empty_message() == "java.util.NoSuchElementException: "@ + "List"@
            + " is empty."@,
        SeqKind::Array.empty_message() == "java.util.NoSuchElementException: "@ + "Array"@
            + " is empty."@,
        SeqKind::List.no_match_message("first"@) == "java.util.NoSuchElementException: "@
            + "Collection"@ + " contains no "@ + "element"@ + " matching the predicate."@,
        SeqKind::Chars.no_match_message("first"@) == "java.util.NoSuchElementException: "@
            + "Char sequence"@ + " contains no "@ + "character"@ + " matching the predicate."@,
        SeqKind::List.many_match_message("single"@) == "java.lang.IllegalArgumentException: "@
            + "Collection"@ + " contains more than one matching element."@,
        SeqKind::List.reduce_message("reduce"@)
            == "java.lang.UnsupportedOperationException: Empty "@ + "collection"@
            + " can't be reduced."@,
{
    reveal_strlit("first");
    reveal_strlit("single");
    reveal_strlit("last");
    reveal_strlit("reduce");
    reveal_strlit("reduceRight");
    assert("first"@.subrange(0, 4)[0] == 'f');
    assert("single"@.subrange(0, 4)[0] == 's');
    assert("last"@[0] == 'l');
    assert("reduce"@.len() < "reduceRight"@.len());
}

/// The extreme of nothing is null where the member's name says so, and throws where
/// it does not.
pub proof fn law_extremes_of_nothing(v: Value)
    ensures
        extremum_reply(Some(v), "max"@) == ReplyView::Value(v),
        extremum_reply(None, "maxOrNull"@) == ReplyView::Value(Value::Undef),
        extremum_reply(None, "max"@) == ReplyView::Fault("java.util.NoSuchElementException"@),
{
    reveal_strlit("max");
    reveal_strlit("maxOrNull");
    reveal_strlit("OrNull");
    assert("maxOrNull"@.subrange(3, 9) =~= "OrNull"@);
    assert(ends_with("maxOrNull"@, "OrNull"@));
    assert("max"@.len() < "OrNull"@.len());
}

/// Sizes and counts that cannot be are named.
pub proof fn law_impossible_sizes(h: HostView, n: int, step: int, lo: Value, hi: Value)
    ensures
        n < 0 ==> window_fault(n, n) == Some(
            "java.lang.IllegalArgumentException: size "@ + decimal(n)
                + " must be greater than zero."@,
        ),
        n <= 0 && step != n ==> window_fault(n, step) == Some(
            "java.lang.IllegalArgumentException: Both size "@ + decimal(n) + " and step "@ + decimal(
                step,
            ) + " must be greater than zero."@,
        ),
        n > 0 && step > 0 ==> window_fault(n, step) is None,
        count_fault(n) == "java.lang.IllegalArgumentException: Requested element count "@ + decimal(
            n,
        ) + " is less than zero."@,
        negative_size(n) == "java.lang.NegativeArraySizeException: "@ + decimal(n),
        empty_range(h, lo, hi)
            == "java.lang.IllegalArgumentException: Cannot coerce value to an empty range: maximum "@
            + text_of(h, hi) + " is less than minimum "@ + text_of(h, lo) + "."@,
{
}

/// A text that writes no number is named, and the base it was read in where that is
/// not ten.
pub proof fn law_malformed_numbers(s: Seq<char>, radix: int)
    ensures
        malformed_message(s, 10) == "java.lang.NumberFormatException: For input string: \""@ + s
            + "\""@,
        radix != 10 ==> malformed_message(s, radix)
            == "java.lang.NumberFormatException: For input string: \""@ + s + "\""@
            + (" under radix "@ + decimal(radix)),
        width_message(s, radix)
            == "java.lang.NumberFormatException: Value out of range. Value:\""@ + s
            + "\" Radix:"@ + decimal(radix),
        radix_message(radix) == "java.lang.IllegalArgumentException: radix "@ + decimal(radix)
            + " was not in valid range 2..36"@,
        number_fault(Seq::empty()) == "java.lang.NumberFormatException: empty String"@,
{
    assert("java.lang.NumberFormatException: For input string: \""@ + s + "\""@ + Seq::<
        char,
    >::empty() =~= "java.lang.NumberFormatException: For input string: \""@ + s + "\""@);
}

/// A member that a value does not have is named with what the value is.
pub proof fn law_missing_members(name: Seq<char>, label: Seq<char>)
    ensures
        unresolved(name, label) == "unresolved reference: "@ + name + " on "@ + label,
{
}

/// `joinToString` stands dots for what its limit leaves out, unless it is told what
/// to.
pub proof fn law_dots(h: HostView, bodies: Seq<Seq<char>>, limit: i64)
    requires
        0 < limit < bodies.len(),
    ensures
        join_text(
            h,
            bodies,
            bodies.len() as int,
            seq![Value::Undef, Value::Undef, Value::Undef, Value::Int(limit)],
        ) == joined(bodies.take(limit as int), ", "@) + ", "@ + "..."@,
{
    let args = seq![Value::Undef, Value::Undef, Value::Undef, Value::Int(limit)];
    assert(crate::receiver::shown_count(h, args, bodies.len() as int) == limit);
    let ts = bodies.take(limit as int);
    let parts = ts.push("..."@);
    assert(parts.drop_last() =~= ts);
    reveal_strlit("");
    let whole = joined(parts, ", "@);
    assert(""@ + whole + ""@ =~= whole);
}

/// Two texts are the same but for their case when their lower-case forms are.
pub proof fn law_ignoring_case(h: HostView, recv: Value, s: Seq<char>, b: usize)
    ensures
        text_member(h, recv, s, "equals"@, seq![Value::Str(b), Value::Bool(true)]) == Some(
            ReplyView::Value(
                Value::Bool(
                    crate::strings::lower_case(s) == crate::strings::lower_case(h.text(b)),
                ),
            ),
        ),
{
    lemma_names();
    assert(text_of(h, Value::Str(b)) == h.text(b));
}

} // verus!
