//! `java.lang.StringBuilder`: a text that changes in place, by UTF-16 code unit.
use crate::display::kotlin_string;
use crate::host::Host;
use crate::reply::Reply;
use crate::strings::{arg_str, int_arg, number_message, sioobe_index, sioobe_range, size_text};
use crate::text::{concat2, concat3, concat5, same};
use crate::radix::int_text;
use crate::utf16::{units, utf16_to_string};
use crate::value::{HeapObj, Value};
use vstd::prelude::*;

verus! {

use crate::display::text_of;
use crate::host::HostView;
use crate::radix::decimal;
use crate::reply::{reply_view, ReplyView};
use crate::strings::{arg_int, arg_text, as_int, index_message, range_message, with_number};
use crate::utf16::{char_units, text_of_units, units_of};
use crate::value::ObjView;

/// The spare room that the constructors leave.
pub const BUILDER_SLACK: usize = 16;

/// The capacity that holds `needed` units, grown from `cap`: doubled plus two,
/// or what is needed when even that is too small.
pub open spec fn grown_capacity(cap: int, needed: int) -> int {
    let wide = if cap * 2 + 2 > needed {
        cap * 2 + 2
    } else {
        needed
    };
    if needed <= cap {
        cap
    } else if wide > usize::MAX {
        usize::MAX as int
    } else {
        wide
    }
}

/// The capacity that holds `needed` units, grown from `cap`.
pub fn builder_cap(cap: usize, needed: usize) -> (r: usize)
    ensures
        r == grown_capacity(cap as int, needed as int),
{
    if needed <= cap {
        return cap;
    }
    let twice: u128 = cap as u128 * 2 + 2;
    let wide: u128 = if twice > needed as u128 {
        twice
    } else {
        needed as u128
    };
    if wide > usize::MAX as u128 {
        usize::MAX
    } else {
        wide as usize
    }
}

/// A builder's capacity never falls, and always holds what is needed.
pub proof fn law_capacity_suffices(cap: int, needed: int)
    requires
        0 <= cap <= usize::MAX,
        0 <= needed <= usize::MAX,
    ensures
        grown_capacity(cap, needed) >= cap,
        grown_capacity(cap, needed) >= needed,
{
}

/// `StringBuilder()`, `StringBuilder(text)` or `StringBuilder(capacity)`.
pub open spec fn new_builder_of(h: HostView, arg: Option<Value>) -> ObjView {
    match arg {
        Some(Value::Int(n)) => ObjView::Builder {
            units: Seq::empty(),
            cap: if n > 0 {
                (n as usize) as int
            } else {
                0
            },
        },
        Some(v) => {
            let u = units_of(text_of(h, v));
            ObjView::Builder {
                units: u,
                cap: if u.len() + 16 > usize::MAX {
                    usize::MAX as int
                } else {
                    u.len() as int + 16
                },
            }
        },
        None => ObjView::Builder { units: Seq::empty(), cap: 16 },
    }
}

/// A new builder.
pub fn new_builder(h: &Host, arg: Option<Value>) -> (o: HeapObj)
    ensures
        o@ == new_builder_of(h@, arg),
{
    match arg {
        Some(Value::Int(n)) => HeapObj::Builder {
            units: Vec::new(),
            cap: if n > 0 {
                n as usize
            } else {
                0
            },
        },
        Some(v) => {
            let u: Vec<u16> = units(kotlin_string(h, v).as_str());
            let cap: usize = u.len().saturating_add(BUILDER_SLACK);
            HeapObj::Builder { units: u, cap }
        },
        None => HeapObj::Builder { units: Vec::new(), cap: BUILDER_SLACK },
    }
}

/// `u` with the units between two positions replaced by `with`.
pub open spec fn spliced(u: Seq<u16>, from: int, to: int, with: Seq<u16>) -> Seq<u16> {
    u.take(from) + with + u.skip(to)
}

pub open spec fn is_high_half(u: u16) -> bool {
    0xd800 <= u < 0xdc00
}

pub open spec fn is_low_half(u: u16) -> bool {
    0xdc00 <= u < 0xe000
}

/// Reversed units with each surrogate pair turned to face forward again.
pub open spec fn pairs_mended(u: Seq<u16>) -> Seq<u16>
    decreases u.len(),
{
    if u.len() == 0 {
        Seq::empty()
    } else if u.len() >= 2 && is_low_half(u[0]) && is_high_half(u[1]) {
        seq![u[1], u[0]] + pairs_mended(u.skip(2))
    } else {
        seq![u[0]] + pairs_mended(u.skip(1))
    }
}

/// `reverse()`: the units back to front, with each surrogate pair facing
/// forward.
pub open spec fn units_reversed(u: Seq<u16>) -> Seq<u16> {
    pairs_mended(u.reverse())
}

/// `u` cut or padded with NUL to `n` units.
pub open spec fn resized(u: Seq<u16>, n: int) -> Seq<u16> {
    if n <= u.len() {
        u.take(n)
    } else {
        u + Seq::new((n - u.len()) as nat, |i: int| 0u16)
    }
}

/// The receiver with new content, and `answer`.
pub open spec fn edited(recv: Value, cap: int, u: Seq<u16>, answer: Value) -> ReplyView {
    ReplyView::Update(
        recv,
        ObjView::Builder { units: u, cap: grown_capacity(cap, u.len() as int) },
        answer,
    )
}

/// Argument `i` as code units.
pub open spec fn arg_units(h: HostView, args: Seq<Value>, i: int) -> Seq<u16> {
    units_of(arg_text(h, args, i))
}

/// The code unit that argument `i` writes.
pub open spec fn unit_arg(h: HostView, args: Seq<Value>, i: int) -> u16 {
    if 0 <= i < args.len() {
        unit_of(h, args[i])
    } else {
        0
    }
}

/// The code unit that a value writes.
pub open spec fn unit_of(h: HostView, v: Value) -> u16 {
    h.num_of(v) as u16
}

/// The members that a `StringBuilder` does not have from `CharSequence`. Those
/// that change the text answer the receiver, so that calls chain.
pub open spec fn builder_member(
    h: HostView,
    recv: Value,
    u: Seq<u16>,
    cap: int,
    name: Seq<char>,
    args: Seq<Value>,
) -> Option<ReplyView> {
    let len = u.len() as int;
    let n = arg_int(h, args, 0, 0);
    if name == "toString"@ {
        Some(ReplyView::Text(text_of_units(u)))
    } else if name == "append"@ {
        Some(edited(recv, cap, u + arg_units(h, args, 0), recv))
    } else if name == "appendLine"@ {
        Some(edited(recv, cap, (u + arg_units(h, args, 0)).push(10), recv))
    } else if name == "insert"@ {
        Some(
            if n < 0 || n > len {
                ReplyView::Fault(range_message(n, len, len))
            } else {
                edited(recv, cap, spliced(u, n, n, arg_units(h, args, 1)), recv)
            },
        )
    } else if name == "appendRange"@ {
        Some(range_inserted(h, recv, u, cap, len, args, 0))
    } else if name == "insertRange"@ {
        Some(
            if n < 0 || n > len {
                ReplyView::Fault(range_message(n, len, len))
            } else {
                range_inserted(h, recv, u, cap, n, args, 1)
            },
        )
    } else if name == "deleteCharAt"@ || name == "deleteAt"@ {
        Some(
            if n < 0 || n >= len {
                ReplyView::Fault(index_message(n, len))
            } else {
                edited(recv, cap, spliced(u, n, n + 1, Seq::empty()), recv)
            },
        )
    } else if name == "delete"@ || name == "deleteRange"@ || name == "replace"@ {
        let given = arg_int(h, args, 1, 0);
        let end = if given < len {
            given
        } else {
            len
        };
        Some(
            if n < 0 || n > end {
                ReplyView::Fault(range_message(n, end, len))
            } else {
                edited(
                    recv,
                    cap,
                    spliced(
                        u,
                        n,
                        end,
                        if name == "replace"@ {
                            arg_units(h, args, 2)
                        } else {
                            Seq::empty()
                        },
                    ),
                    recv,
                )
            },
        )
    } else if name == "reverse"@ {
        Some(edited(recv, cap, units_reversed(u), recv))
    } else if name == "clear"@ {
        Some(edited(recv, cap, Seq::empty(), recv))
    } else if name == "setLength"@ {
        Some(
            if n < 0 {
                ReplyView::Fault(
                    with_number(
                        "java.lang.StringIndexOutOfBoundsException: String index out of range: "@,
                        n,
                        ""@,
                    ),
                )
            } else {
                edited(recv, cap, resized(u, n), Value::Undef)
            },
        )
    } else if name == "setCharAt"@ {
        Some(
            if n < 0 || n >= len {
                ReplyView::Fault(index_message(n, len))
            } else {
                edited(recv, cap, u.update(n, unit_arg(h, args, 1)), Value::Undef)
            },
        )
    } else if name == "capacity"@ {
        Some(ReplyView::Value(as_int(cap)))
    } else if name == "trimToSize"@ {
        Some(
            ReplyView::Update(recv, ObjView::Builder { units: u, cap: len }, Value::Undef),
        )
    } else if name == "ensureCapacity"@ {
        let want = if n > 0 {
            (n as usize) as int
        } else {
            0
        };
        Some(
            ReplyView::Update(
                recv,
                ObjView::Builder { units: u, cap: grown_capacity(cap, want) },
                Value::Undef,
            ),
        )
    } else {
        None
    }
}

/// A half-open slice of the text at argument `k`, inserted at `at`. The bounds
/// are those of the argument.
pub open spec fn range_inserted(
    h: HostView,
    recv: Value,
    u: Seq<u16>,
    cap: int,
    at: int,
    args: Seq<Value>,
    k: int,
) -> ReplyView {
    let src = arg_units(h, args, k);
    let from = arg_int(h, args, k + 1, 0);
    let to = arg_int(h, args, k + 2, 0);
    if from < 0 || to > src.len() || from > to {
        ReplyView::Fault(
            "java.lang.IndexOutOfBoundsException: Range ["@ + decimal(from) + ", "@ + decimal(to)
                + ") out of bounds for length "@ + decimal(src.len() as int),
        )
    } else {
        edited(recv, cap, spliced(u, at, at, src.subrange(from, to)), recv)
    }
}

fn splice(u: &Vec<u16>, from: usize, to: usize, with: &Vec<u16>, a: usize, b: usize) -> (r: Vec<u16>)
    requires
        from <= to <= u@.len(),
        a <= b <= with@.len(),
    ensures
        r@ == spliced(u@, from as int, to as int, with@.subrange(a as int, b as int)),
{
    let mut r: Vec<u16> = Vec::new();
    push_units(&mut r, u, 0, from);
    push_units(&mut r, with, a, b);
    push_units(&mut r, u, to, u.len());
    assert(r@ =~= spliced(u@, from as int, to as int, with@.subrange(a as int, b as int)));
    r
}

fn push_units(r: &mut Vec<u16>, u: &Vec<u16>, from: usize, to: usize)
    requires
        from <= to <= u@.len(),
    ensures
        final(r)@ == old(r)@ + u@.subrange(from as int, to as int),
{
    let mut i: usize = from;
    assert(r@ =~= old(r)@ + u@.subrange(from as int, from as int));
    while i < to
        invariant
            from <= i <= to <= u@.len(),
            r@ == old(r)@ + u@.subrange(from as int, i as int),
        decreases to - i,
    {
        r.push(u[i]);
        i = i + 1;
        assert(u@.subrange(from as int, i as int) =~= u@.subrange(from as int, i - 1).push(
            u@[i - 1],
        ));
        assert(r@ =~= old(r)@ + u@.subrange(from as int, i as int));
    }
}

fn edit(recv: Value, cap: usize, u: Vec<u16>, answer: Value) -> (r: Reply)
    ensures
        r@ == edited(recv, cap as int, u@, answer),
{
    let grown: usize = builder_cap(cap, u.len());
    Reply::Update(recv, HeapObj::Builder { units: u, cap: grown }, answer)
}

fn reverse_units(u: &Vec<u16>) -> (r: Vec<u16>)
    ensures
        r@ == units_reversed(u@),
{
    let mut r: Vec<u16> = Vec::new();
    let ghost back = u@.reverse();
    let mut i: usize = u.len();
    assert(back.skip(0) =~= back);
    assert(r@ + pairs_mended(back) =~= pairs_mended(back));
    while i > 0
        invariant
            i <= u@.len(),
            back == u@.reverse(),
            r@ + pairs_mended(back.skip(u@.len() - i)) == pairs_mended(back),
        decreases i,
    {
        let ghost k = u@.len() - i;
        let ghost t = back.skip(k);
        assert(t[0] == u@[i - 1]);
        let a: u16 = u[i - 1];
        if i >= 2 && 0xdc00 <= a && a < 0xe000 && 0xd800 <= u[i - 2] && u[i - 2] < 0xdc00 {
            assert(t[1] == u@[i - 2]);
            assert(t.skip(2) =~= back.skip(k + 2));
            let ghost before = r@;
            r.push(u[i - 2]);
            r.push(a);
            assert(r@ + pairs_mended(back.skip(k + 2)) =~= before + (seq![t[1], t[0]]
                + pairs_mended(t.skip(2))));
            i = i - 2;
        } else {
            if i >= 2 {
                assert(t[1] == u@[i - 2]);
            }
            assert(t.skip(1) =~= back.skip(k + 1));
            let ghost before = r@;
            r.push(a);
            assert(r@ + pairs_mended(back.skip(k + 1)) =~= before + (seq![t[0]] + pairs_mended(
                t.skip(1),
            )));
            i = i - 1;
        }
    }
    assert(back.skip(u@.len() as int) =~= Seq::<u16>::empty());
    assert(r@ + Seq::<u16>::empty() =~= r@);
    r
}

fn resize(u: &Vec<u16>, n: i64) -> (r: Vec<u16>)
    requires
        n >= 0,
    ensures
        r@ == resized(u@, n as int),
{
    let mut r: Vec<u16> = Vec::new();
    if n as u128 <= u.len() as u128 {
        push_units(&mut r, u, 0, n as usize);
        assert(r@ =~= resized(u@, n as int));
        return r;
    }
    push_units(&mut r, u, 0, u.len());
    assert(r@ =~= u@ + Seq::new(0, |i: int| 0u16));
    while (r.len() as i128) < n as i128
        invariant
            u@.len() <= r@.len() <= n,
            r@ == u@ + Seq::new((r@.len() - u@.len()) as nat, |i: int| 0u16),
        decreases n - r@.len(),
    {
        r.push(0);
        assert(r@ =~= u@ + Seq::new((r@.len() - u@.len()) as nat, |i: int| 0u16));
    }
    r
}

fn insert_range(
    h: &Host,
    recv: Value,
    u: &Vec<u16>,
    cap: usize,
    at: usize,
    args: &Vec<Value>,
    k: usize,
) -> (r: Reply)
    requires
        at <= u@.len(),
        k <= 1,
    ensures
        r@ == range_inserted(h@, recv, u@, cap as int, at as int, args@, k as int),
{
    let src: Vec<u16> = units(arg_str(h, args, k).as_str());
    let from: i64 = int_arg(h, args, k + 1, 0);
    let to: i64 = int_arg(h, args, k + 2, 0);
    if from < 0 || to as i128 > src.len() as i128 || from > to {
        let head: String = concat5(
            "java.lang.IndexOutOfBoundsException: Range [",
            int_text(from).as_str(),
            ", ",
            int_text(to).as_str(),
            ") out of bounds for length ",
        );
        Reply::Fault(concat2(head.as_str(), size_text(src.len()).as_str()))
    } else {
        edit(recv, cap, splice(u, at, at, &src, from as usize, to as usize), recv)
    }
}

fn range_fault(from: i64, len: usize) -> (s: String)
    ensures
        s@ == range_message(from as int, len as int, len as int),
{
    let head: String = concat2(
        "java.lang.StringIndexOutOfBoundsException: Range [",
        int_text(from).as_str(),
    );
    let mid: String = concat3(head.as_str(), ", ", size_text(len).as_str());
    concat3(mid.as_str(), ") out of bounds for length ", size_text(len).as_str())
}

fn replace_units(
    h: &Host,
    recv: Value,
    u: &Vec<u16>,
    cap: usize,
    start: i64,
    given: i64,
    with: &Vec<u16>,
) -> (r: Reply)
    ensures
        r@ == ({
            let len = u@.len() as int;
            let end = if given < len {
                given as int
            } else {
                len
            };
            if start < 0 || start > end {
                ReplyView::Fault(range_message(start as int, end, len))
            } else {
                edited(recv, cap as int, spliced(u@, start as int, end, with@), recv)
            }
        }),
{
    assert(with@.subrange(0, with@.len() as int) =~= with@);
    if (given as i128) < u.len() as i128 {
        if start < 0 || start > given {
            Reply::Fault(sioobe_range(start, given, u.len()))
        } else {
            edit(
                recv,
                cap,
                splice(u, start as usize, given as usize, with, 0, with.len()),
                recv,
            )
        }
    } else if start < 0 || start as i128 > u.len() as i128 {
        Reply::Fault(range_fault(start, u.len()))
    } else {
        edit(recv, cap, splice(u, start as usize, u.len(), with, 0, with.len()), recv)
    }
}

/// The code unit that a value writes.
pub(crate) fn unit_of_value(h: &Host, v: Value) -> (c: u16)
    ensures
        c == unit_of(h@, v),
{
    h.num_of(v) as u16
}

/// The members that a `StringBuilder` does not have from `CharSequence`; `None`
/// when `name` is none of them. `u` and `cap` are the receiver's content and
/// capacity.
pub fn builder_method(
    h: &Host,
    recv: Value,
    u: &Vec<u16>,
    cap: usize,
    name: &str,
    args: &Vec<Value>,
) -> (r: Option<Reply>)
    ensures
        reply_view(r) == builder_member(h@, recv, u@, cap as int, name@, args@),
{
    let len: usize = u.len();
    let n: i64 = int_arg(h, args, 0, 0);
    let past_end: bool = n < 0 || n as i128 > len as i128;
    let outside: bool = n < 0 || n as i128 >= len as i128;
    let none: Vec<u16> = Vec::new();
    assert(none@ =~= Seq::empty());
    if same(name, "toString") {
        Some(Reply::Text(utf16_to_string(u)))
    } else if same(name, "append") {
        let mut out: Vec<u16> = Vec::new();
        push_units(&mut out, u, 0, len);
        let mut more: Vec<u16> = units(arg_str(h, args, 0).as_str());
        out.append(&mut more);
        assert(out@ =~= u@ + arg_units(h@, args@, 0));
        Some(edit(recv, cap, out, recv))
    } else if same(name, "appendLine") {
        let mut out: Vec<u16> = Vec::new();
        push_units(&mut out, u, 0, len);
        let mut more: Vec<u16> = units(arg_str(h, args, 0).as_str());
        out.append(&mut more);
        assert(out@ =~= u@ + arg_units(h@, args@, 0));
        out.push(10);
        Some(edit(recv, cap, out, recv))
    } else if same(name, "insert") {
        if past_end {
            Some(Reply::Fault(range_fault(n, len)))
        } else {
            let ins: Vec<u16> = units(arg_str(h, args, 1).as_str());
            assert(ins@.subrange(0, ins@.len() as int) =~= ins@);
            Some(edit(recv, cap, splice(u, n as usize, n as usize, &ins, 0, ins.len()), recv))
        }
    } else if same(name, "appendRange") {
        Some(insert_range(h, recv, u, cap, len, args, 0))
    } else if same(name, "insertRange") {
        if past_end {
            Some(Reply::Fault(range_fault(n, len)))
        } else {
            Some(insert_range(h, recv, u, cap, n as usize, args, 1))
        }
    } else if same(name, "deleteCharAt") || same(name, "deleteAt") {
        if outside {
            Some(Reply::Fault(sioobe_index(n, len)))
        } else {
            assert(none@.subrange(0, 0) =~= Seq::<u16>::empty());
            Some(edit(recv, cap, splice(u, n as usize, n as usize + 1, &none, 0, 0), recv))
        }
    } else if same(name, "delete") || same(name, "deleteRange") || same(name, "replace") {
        let with: Vec<u16> = if same(name, "replace") {
            units(arg_str(h, args, 2).as_str())
        } else {
            none
        };
        Some(replace_units(h, recv, u, cap, n, int_arg(h, args, 1, 0), &with))
    } else if same(name, "reverse") {
        Some(edit(recv, cap, reverse_units(u), recv))
    } else if same(name, "clear") {
        Some(edit(recv, cap, none, recv))
    } else if same(name, "setLength") {
        if n < 0 {
            Some(
                Reply::Fault(
                    number_message(
                        "java.lang.StringIndexOutOfBoundsException: String index out of range: ",
                        n,
                        "",
                    ),
                ),
            )
        } else {
            Some(edit(recv, cap, resize(u, n), Value::Undef))
        }
    } else if same(name, "setCharAt") {
        if outside {
            Some(Reply::Fault(sioobe_index(n, len)))
        } else {
            let c: u16 = if args.len() > 1 {
                unit_of_value(h, args[1])
            } else {
                0
            };
            let mut out: Vec<u16> = Vec::new();
            push_units(&mut out, u, 0, len);
            assert(out@ =~= u@);
            out.set(n as usize, c);
            Some(edit(recv, cap, out, Value::Undef))
        }
    } else if same(name, "capacity") {
        Some(Reply::Value(Value::Int(cap as i64)))
    } else if same(name, "trimToSize") {
        let mut out: Vec<u16> = Vec::new();
        push_units(&mut out, u, 0, len);
        assert(out@ =~= u@);
        Some(Reply::Update(recv, HeapObj::Builder { units: out, cap: len }, Value::Undef))
    } else if same(name, "ensureCapacity") {
        let want: usize = if n > 0 {
            n as usize
        } else {
            0
        };
        let mut out: Vec<u16> = Vec::new();
        push_units(&mut out, u, 0, len);
        assert(out@ =~= u@);
        Some(
            Reply::Update(
                recv,
                HeapObj::Builder { units: out, cap: builder_cap(cap, want) },
                Value::Undef,
            ),
        )
    } else {
        None
    }
}

// ── Laws ────────────────────────────────────────────────────────────────────

proof fn lemma_char_units(c: char)
    ensures
        char_units(c).len() == 1 ==> !is_low_half(char_units(c)[0]) && !is_high_half(
            char_units(c)[0],
        ),
        char_units(c).len() == 2 ==> is_high_half(char_units(c)[0]) && is_low_half(
            char_units(c)[1],
        ),
        char_units(c).len() == 1 || char_units(c).len() == 2,
{
    crate::text::lemma_char_code(c);
}

/// Reversing a builder reverses whole characters: surrogate pairs stay intact.
pub proof fn law_reverse_keeps_characters(s: Seq<char>)
    ensures
        units_reversed(units_of(s)) == units_of(s.reverse()),
    decreases s.len(),
{
    if s.len() == 0 {
        assert(s.reverse() =~= s);
        assert(units_of(s).reverse() =~= Seq::<u16>::empty());
    } else {
        let c = s.last();
        let t = s.drop_last();
        law_reverse_keeps_characters(t);
        lemma_reverse_concat(units_of(t), char_units(c));
        lemma_mend_front(c, units_of(t).reverse());
        lemma_units_of_one(c);
        crate::utf16::law_units_concat(seq![c], t.reverse());
        assert(s.reverse() =~= seq![c] + t.reverse());
    }
}

proof fn lemma_reverse_concat(a: Seq<u16>, b: Seq<u16>)
    ensures
        (a + b).reverse() == b.reverse() + a.reverse(),
{
    assert((a + b).reverse() =~= b.reverse() + a.reverse());
}

proof fn lemma_mend_front(c: char, w: Seq<u16>)
    ensures
        pairs_mended(char_units(c).reverse() + w) == char_units(c) + pairs_mended(w),
{
    let e = char_units(c);
    let back = e.reverse() + w;
    lemma_char_units(c);
    if e.len() == 1 {
        assert(back[0] == e[0]);
        assert(back.skip(1) =~= w);
        assert(seq![back[0]] =~= e);
    } else {
        assert(back[0] == e[1] && back[1] == e[0]);
        assert(back.skip(2) =~= w);
        assert(seq![back[1], back[0]] =~= e);
    }
}

proof fn lemma_units_of_one(c: char)
    ensures
        units_of(seq![c]) == char_units(c),
{
    reveal_with_fuel(units_of, 2);
    assert(seq![c].drop_last() =~= Seq::<char>::empty());
    assert(seq![c].skip(1) =~= Seq::<char>::empty());
    assert(units_of(seq![c]) =~= char_units(c));
}

/// Every member that edits the text answers the receiver, so that a chain keeps
/// building one object; those that only resize or set answer nothing.
pub proof fn law_mutators_answer_the_receiver(
    h: HostView,
    recv: Value,
    u: Seq<u16>,
    cap: int,
    name: Seq<char>,
    args: Seq<Value>,
)
    ensures
        builder_member(h, recv, u, cap, name, args) matches Some(ReplyView::Update(v, o, answer))
            ==> v == recv && o is Builder && answer == (if name == "setLength"@ || name
            == "setCharAt"@ || name == "trimToSize"@ || name == "ensureCapacity"@ {
            Value::Undef
        } else {
            recv
        }),
{
    reveal_strlit("setLength");
    reveal_strlit("setCharAt");
    reveal_strlit("trimToSize");
    reveal_strlit("ensureCapacity");
    reveal_strlit("append");
    reveal_strlit("appendLine");
    reveal_strlit("insert");
    reveal_strlit("appendRange");
    reveal_strlit("insertRange");
    reveal_strlit("deleteCharAt");
    reveal_strlit("deleteAt");
    reveal_strlit("delete");
    reveal_strlit("deleteRange");
    reveal_strlit("replace");
    reveal_strlit("reverse");
    reveal_strlit("clear");
    assert("setLength"@.len() == 9);
    assert("setCharAt"@.len() == 9);
    assert("trimToSize"@.len() == 10);
    assert("ensureCapacity"@.len() == 14);
    assert("append"@.len() == 6);
    assert("appendLine"@.len() == 10);
    assert("insert"@.len() == 6);
    assert("appendRange"@.len() == 11);
    assert("insertRange"@.len() == 11);
    assert("deleteCharAt"@.len() == 12);
    assert("deleteAt"@.len() == 8);
    assert("delete"@.len() == 6);
    assert("deleteRange"@.len() == 11);
    assert("replace"@.len() == 7);
    assert("reverse"@.len() == 7);
    assert("clear"@.len() == 5);
    assert("trimToSize"@[0] == 't' && "appendLine"@[0] == 'a');
    assert("setLength"@[3] == 'L' && "setCharAt"@[3] == 'C');
}

} // verus!
