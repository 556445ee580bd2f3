//! The Kotlin display form of a value.
//!
//! Rendering a container recurses into its elements. Containers being rendered
//! are remembered: one that contains itself directly prints a placeholder, and
//! nesting deeper than [`RENDER_DEPTH_LIMIT`] stops with the overflow flag set,
//! which the caller turns into a `StackOverflowError`.
use crate::compare::depth_budget;
use crate::double::format_double;
use crate::host::Host;
use crate::radix::{int_text, unsigned_to_radix};
use crate::range::RangeObj;
use crate::text::{char_from_code, push_char, same};
use crate::utf16::utf16_to_string;
use crate::value::{char_code, Double, HeapObj, Value};
use crate::walk::{Call, Log, Stop, Turn};
use vstd::prelude::*;

verus! {

use crate::compare::{budget, data_fields};
use crate::double::double_text;
use crate::host::HostView;
use crate::radix::{decimal, nat_digits};
use crate::search::texts_view;
use crate::utf16::text_of_units;
use crate::value::{code_of, fields_view, ObjView};
use crate::walk::{consult, host_at, result_of, Answers, Outcome};

/// How deep a display walk may nest before `java.lang.StackOverflowError`.
pub const RENDER_DEPTH_LIMIT: usize = 512;

/// A rendering: the text, and whether the walk ran too deep somewhere.
pub type Rendered = (Seq<char>, bool);

/// The one-character string of a code; an unpaired surrogate has no character of
/// its own and renders as the replacement character.
pub open spec fn code_text(code: int) -> Seq<char> {
    if crate::text::is_scalar_code(code) {
        seq![code as char]
    } else {
        seq!['\u{fffd}']
    }
}

/// The one-character string a `Char` displays as; the low 32 bits of the code
/// count.
pub fn char_string(code: i64) -> (s: String)
    ensures
        s@ == code_text((code as u32) as int),
{
    let mut s: String = String::new();
    let c: char = match char_from_code(code as u32) {
        Some(c) => c,
        None => '\u{fffd}',
    };
    push_char(&mut s, c);
    assert(s@ =~= code_text((code as u32) as int));
    s
}

/// The value of the field `name`.
pub open spec fn field_named(fields: Seq<(Seq<char>, Value)>, name: Seq<char>) -> Option<Value>
    decreases fields.len(),
{
    if fields.len() == 0 {
        None
    } else if fields[0].0 == name {
        Some(fields[0].1)
    } else {
        field_named(fields.skip(1), name)
    }
}

/// The value of the field `name`, the first if there are several.
pub fn find_field(fields: &Vec<(String, Value)>, name: &str) -> (r: Option<Value>)
    ensures
        r == field_named(fields_view(fields@), name@),
{
    let ghost all = fields_view(fields@);
    let mut i: usize = 0;
    assert(all.skip(0) =~= all);
    while i < fields.len()
        invariant
            i <= fields@.len(),
            all == fields_view(fields@),
            field_named(all.skip(i as int), name@) == field_named(all, name@),
        decreases fields.len() - i,
    {
        assert(all.skip(i as int)[0] == all[i as int]);
        assert(all.skip(i as int).skip(1) =~= all.skip(i + 1));
        if same(fields[i].0.as_str(), name) {
            return Some(fields[i].1);
        }
        i = i + 1;
    }
    None
}

/// A value that is no heap object, as text.
pub open spec fn scalar_text(h: HostView, v: Value) -> Seq<char> {
    match v {
        Value::Undef => "null"@,
        Value::Bool(b) => if b {
            "true"@
        } else {
            "false"@
        },
        Value::Int(n) => decimal(n as int),
        Value::Float(id) => double_text(h.double(id)),
        Value::Str(id) => h.text(id),
        Value::Obj(_) => match code_of(v) {
            Some(c) => code_text(c),
            None => "null"@,
        },
    }
}

fn push_scalar(h: &Host, v: Value, out: &mut String)
    ensures
        final(out)@ == old(out)@ + scalar_text(h@, v),
{
    match v {
        Value::Undef => {
            out.append("null");
        },
        Value::Bool(b) => if b {
            out.append("true");
        } else {
            out.append("false");
        },
        Value::Int(n) => {
            out.append(int_text(n).as_str());
        },
        Value::Float(id) => if id < h.doubles.len() {
            out.append(format_double(&*h.doubles[id]).as_str());
        } else {
            let d = Double { bits: 0, digits: "0".to_owned(), exp10: 0 };
            proof {
                reveal_strlit("0");
            }
            assert(d@.digits =~= seq!['0']);
            out.append(format_double(&d).as_str());
        },
        Value::Str(id) => {
            out.append(h.text(id));
        },
        Value::Obj(_) => match char_code(&v) {
            Some(c) => {
                out.append(char_string(c).as_str());
            },
            None => {
                out.append("null");
            },
        },
    }
}

/// A number of a range as its printed element.
pub open spec fn range_point(r: RangeObj, n: int) -> Seq<char> {
    if r.is_char {
        code_text(n % 0x10000)
    } else {
        decimal(n)
    }
}

/// The printed form of a range: `first..end`, and with the reached last element
/// and the step for a progression.
pub open spec fn range_text(r: RangeObj) -> Seq<char> {
    if !r.progression {
        range_point(r, r.first as int) + ".."@ + range_point(r, r.end as int)
    } else if r.step > 0 {
        range_point(r, r.first as int) + ".."@ + range_point(r, r.last_element()) + " step "@
            + decimal(r.step as int)
    } else {
        range_point(r, r.first as int) + " downTo "@ + range_point(r, r.last_element()) + " step "@
            + decimal(-(r.step as int))
    }
}

fn push_range_point(r: &RangeObj, n: i64, out: &mut String)
    ensures
        final(out)@ == old(out)@ + range_point(*r, n as int),
{
    if r.is_char {
        let low: i64 = n % 0x10000;
        let code: i64 = if low < 0 {
            low + 0x10000
        } else {
            low
        };
        out.append(char_string(code).as_str());
    } else {
        out.append(int_text(n).as_str());
    }
}

fn push_range(r: &RangeObj, out: &mut String)
    ensures
        final(out)@ == old(out)@ + range_text(*r),
{
    push_range_point(r, r.first, out);
    if !r.progression {
        out.append("..");
        push_range_point(r, r.end, out);
    } else if r.step > 0 {
        out.append("..");
        push_range_point(r, r.last(), out);
        out.append(" step ");
        out.append(int_text(r.step).as_str());
    } else {
        out.append(" downTo ");
        push_range_point(r, r.last(), out);
        out.append(" step ");
        out.append(unsigned_to_radix((-(r.step as i128)) as u64, 10).as_str());
    }
    assert(out@ =~= old(out)@ + range_text(*r));
}

/// What stands for `v` inside the container being rendered innermost, when `v`
/// is that container itself.
pub open spec fn placeholder(v: Value, stack: Seq<u32>, in_map: bool) -> Option<Seq<char>> {
    if v is Obj && stack.len() > 0 && stack.last() == v->Obj_0 {
        Some(
            if in_map {
                "(this Map)"@
            } else {
                "(this Collection)"@
            },
        )
    } else {
        None
    }
}

/// Kotlin `Any?.toString()`, without user overrides. `stack` holds the
/// containers being rendered, outermost first; `fuel` bounds the nesting of
/// what is not a container.
pub open spec fn render(h: HostView, v: Value, stack: Seq<u32>, fuel: nat) -> Rendered
    decreases RENDER_DEPTH_LIMIT - stack.len(), fuel, 0int, 0int,
{
    if code_of(v) is Some {
        (scalar_text(h, v), false)
    } else {
        match h.obj(v) {
            None => (scalar_text(h, v), false),
            Some(o) => if fuel == 0 {
                (Seq::empty(), true)
            } else {
                render_obj(h, v->Obj_0, o, stack, (fuel - 1) as nat)
            },
        }
    }
}

/// The parts of `b` behind those of `a`.
pub open spec fn then_render(a: Rendered, b: Rendered) -> Rendered {
    (a.0 + b.0, a.1 || b.1)
}

/// A fixed text as a rendering.
pub open spec fn plain(s: Seq<char>) -> Rendered {
    (s, false)
}

/// `Throwable.toString()`: the class, and `: ` with the message if there is one.
pub open spec fn render_message(
    h: HostView,
    class: Seq<char>,
    message: Option<Value>,
    stack: Seq<u32>,
    fuel: nat,
) -> Rendered
    decreases RENDER_DEPTH_LIMIT - stack.len(), fuel, 1int, 0int,
{
    match message {
        None => plain(class),
        Some(Value::Undef) => plain(class),
        Some(m) => then_render(plain(class + ": "@), render(h, m, stack, fuel)),
    }
}

/// The display form of a throwable; of another value, its ordinary one.
pub open spec fn render_throwable(h: HostView, v: Value, stack: Seq<u32>, fuel: nat) -> Rendered
    decreases RENDER_DEPTH_LIMIT - stack.len(), fuel, 2int, 0int,
{
    match h.obj(v) {
        Some(ObjView::Exc { class, msg }) => match msg {
            Some(m) => plain(class + ": "@ + m),
            None => plain(class),
        },
        Some(ObjView::Instance { class, fields, .. }) => if h.class_is_throwable(class) {
            render_message(h, class, field_named(fields, "message"@), stack, fuel)
        } else {
            render(h, v, stack, fuel)
        },
        _ => render(h, v, stack, fuel),
    }
}

/// The display form of the object with handle `id`.
pub open spec fn render_obj(
    h: HostView,
    id: u32,
    o: ObjView,
    stack: Seq<u32>,
    fuel: nat,
) -> Rendered
    decreases RENDER_DEPTH_LIMIT - stack.len(), fuel, 3int, 0int,
{
    let deep = stack.len() >= RENDER_DEPTH_LIMIT;
    let inner = stack.push(id);
    match o {
        ObjView::Instance { class, is_data, fields, data_from, data_len } => if is_data {
            if deep {
                (Seq::empty(), true)
            } else {
                let own = data_fields(fields, data_from, data_len);
                then_render(
                    then_render(plain(class + "("@), render_fields(h, own, 0, inner, budget(h))),
                    plain(")"@),
                )
            }
        } else if h.class_is_enum(class) {
            match field_named(fields, "name"@) {
                Some(x) => render(h, x, stack, fuel),
                None => plain(class),
            }
        } else if h.class_is_throwable(class) {
            render_message(h, class, field_named(fields, "message"@), stack, fuel)
        } else {
            plain(class + "@"@ + nat_digits(id as nat, 16))
        },
        ObjView::List(items) => if deep {
            (Seq::empty(), true)
        } else {
            then_render(
                then_render(plain("["@), render_items(h, items, 0, inner, budget(h))),
                plain("]"@),
            )
        },
        ObjView::SetObj(items) => if deep {
            (Seq::empty(), true)
        } else {
            then_render(
                then_render(plain("["@), render_items(h, items, 0, inner, budget(h))),
                plain("]"@),
            )
        },
        ObjView::MapObj(entries) => if deep {
            (Seq::empty(), true)
        } else {
            then_render(
                then_render(plain("{"@), render_entries(h, entries, 0, inner, budget(h))),
                plain("}"@),
            )
        },
        ObjView::Pair(a, b) => then_render(
            then_render(
                then_render(
                    then_render(plain("("@), render(h, a, stack, fuel)),
                    plain(", "@),
                ),
                render(h, b, stack, fuel),
            ),
            plain(")"@),
        ),
        ObjView::Entry(a, b) => then_render(
            then_render(render(h, a, stack, fuel), plain("="@)),
            render(h, b, stack, fuel),
        ),
        ObjView::Triple(a, b, c) => then_render(
            then_render(
                then_render(
                    then_render(
                        then_render(
                            then_render(plain("("@), render(h, a, stack, fuel)),
                            plain(", "@),
                        ),
                        render(h, b, stack, fuel),
                    ),
                    plain(", "@),
                ),
                render(h, c, stack, fuel),
            ),
            plain(")"@),
        ),
        ObjView::Res { value, err } => match err {
            Some(e) => then_render(
                then_render(plain("Failure("@), render_throwable(h, e, stack, fuel)),
                plain(")"@),
            ),
            None => then_render(
                then_render(plain("Success("@), render(h, value, stack, fuel)),
                plain(")"@),
            ),
        },
        ObjView::Lazy { cached, .. } => match cached {
            Some(x) => render(h, x, stack, fuel),
            None => plain("Lazy value not initialized yet."@),
        },
        ObjView::Closure { params, .. } => plain(
            "(lambda arity="@ + decimal(params as int) + ")"@,
        ),
        ObjView::Comparator(keys) => plain("(comparator keys="@ + decimal(keys.len() as int) + ")"@),
        ObjView::Gen { stages, .. } => plain(
            "(sequence stages="@ + decimal(stages.len() as int) + ")"@,
        ),
        ObjView::Grouping { items, .. } => plain(
            "(grouping size="@ + decimal(items.len() as int) + ")"@,
        ),
        ObjView::Range(r) => plain(range_text(r)),
        ObjView::Array { desc, .. } => plain(desc + "@"@ + nat_digits(id as nat, 16)),
        ObjView::Builder { units, .. } => plain(text_of_units(units)),
        ObjView::Exc { class, msg } => match msg {
            Some(m) => plain(class + ": "@ + m),
            None => plain(class),
        },
    }
}

/// An element, or the placeholder for the container itself.
pub open spec fn render_element(
    h: HostView,
    v: Value,
    in_map: bool,
    stack: Seq<u32>,
    fuel: nat,
) -> Rendered
    decreases RENDER_DEPTH_LIMIT - stack.len(), fuel, 1int, 0int,
{
    match placeholder(v, stack, in_map) {
        Some(p) => plain(p),
        None => render(h, v, stack, fuel),
    }
}

/// `, ` between elements, and nothing behind the last.
pub open spec fn separator(i: int, n: int) -> Seq<char> {
    if i + 1 < n {
        ", "@
    } else {
        Seq::empty()
    }
}

/// The elements from position `i` on, separated by `, `.
pub open spec fn render_items(
    h: HostView,
    items: Seq<Value>,
    i: int,
    stack: Seq<u32>,
    fuel: nat,
) -> Rendered
    decreases RENDER_DEPTH_LIMIT - stack.len(), fuel, 4int, items.len() - i,
{
    if i < 0 || i >= items.len() {
        plain(Seq::empty())
    } else {
        then_render(
            then_render(
                render_element(h, items[i], false, stack, fuel),
                plain(separator(i, items.len() as int)),
            ),
            render_items(h, items, i + 1, stack, fuel),
        )
    }
}

/// The entries from position `i` on, each `key=value`, separated by `, `.
pub open spec fn render_entries(
    h: HostView,
    es: Seq<(Value, Value)>,
    i: int,
    stack: Seq<u32>,
    fuel: nat,
) -> Rendered
    decreases RENDER_DEPTH_LIMIT - stack.len(), fuel, 4int, es.len() - i,
{
    if i < 0 || i >= es.len() {
        plain(Seq::empty())
    } else {
        then_render(
            then_render(
                then_render(
                    then_render(render_element(h, es[i].0, true, stack, fuel), plain("="@)),
                    render_element(h, es[i].1, true, stack, fuel),
                ),
                plain(separator(i, es.len() as int)),
            ),
            render_entries(h, es, i + 1, stack, fuel),
        )
    }
}

/// The properties from position `i` on, each `name=value`, separated by `, `.
pub open spec fn render_fields(
    h: HostView,
    fields: Seq<(Seq<char>, Value)>,
    i: int,
    stack: Seq<u32>,
    fuel: nat,
) -> Rendered
    decreases RENDER_DEPTH_LIMIT - stack.len(), fuel, 4int, fields.len() - i,
{
    if i < 0 || i >= fields.len() {
        plain(Seq::empty())
    } else {
        then_render(
            then_render(
                then_render(plain(fields[i].0 + "="@), render(h, fields[i].1, stack, fuel)),
                plain(separator(i, fields.len() as int)),
            ),
            render_fields(h, fields, i + 1, stack, fuel),
        )
    }
}

/// Kotlin `Any?.toString()` of a value rendered on its own.
pub open spec fn shown(h: HostView, v: Value) -> Rendered {
    render(h, v, Seq::empty(), budget(h))
}

/// The text of [`shown`].
pub open spec fn text_of(h: HostView, v: Value) -> Seq<char> {
    shown(h, v).0
}

// ── Rendering ───────────────────────────────────────────────────────────────

/// Whether appending to `before` gave `after` and the rendering `r`.
pub open spec fn appended(before: Seq<char>, after: Seq<char>, over: bool, r: Rendered) -> bool {
    after == before + r.0 && over == r.1
}

fn push_value(h: &Host, v: Value, stack: &mut Vec<u32>, fuel: usize, out: &mut String) -> (over: bool)
    requires
        old(stack)@.len() <= RENDER_DEPTH_LIMIT,
    ensures
        final(stack)@ == old(stack)@,
        appended(old(out)@, final(out)@, over, render(h@, v, old(stack)@, fuel as nat)),
    decreases RENDER_DEPTH_LIMIT - old(stack)@.len(), fuel, 0int, 0int,
{
    if char_code(&v).is_some() {
        push_scalar(h, v, out);
        return false;
    }
    match h.obj(v) {
        None => {
            push_scalar(h, v, out);
            false
        },
        Some(o) => {
            if fuel == 0 {
                assert(out@ + Seq::<char>::empty() =~= out@);
                return true;
            }
            let id: u32 = match v {
                Value::Obj(id) => id,
                _ => 0,
            };
            push_obj(h, id, o, stack, fuel - 1, out)
        },
    }
}

fn push_message(
    h: &Host,
    class: &str,
    message: Option<Value>,
    stack: &mut Vec<u32>,
    fuel: usize,
    out: &mut String,
) -> (over: bool)
    requires
        old(stack)@.len() <= RENDER_DEPTH_LIMIT,
    ensures
        final(stack)@ == old(stack)@,
        appended(
            old(out)@,
            final(out)@,
            over,
            render_message(h@, class@, message, old(stack)@, fuel as nat),
        ),
    decreases RENDER_DEPTH_LIMIT - old(stack)@.len(), fuel, 1int, 0int,
{
    out.append(class);
    match message {
        None => false,
        Some(Value::Undef) => false,
        Some(m) => {
            out.append(": ");
            let over: bool = push_value(h, m, stack, fuel, out);
            assert(out@ =~= old(out)@ + render_message(
                h@,
                class@,
                message,
                old(stack)@,
                fuel as nat,
            ).0);
            over
        },
    }
}

fn push_exc(class: &str, msg: &Option<String>, out: &mut String)
    ensures
        final(out)@ == old(out)@ + (match msg {
            Some(m) => class@ + ": "@ + m@,
            None => class@,
        }),
{
    out.append(class);
    match msg {
        Some(m) => {
            out.append(": ");
            out.append(m.as_str());
            assert(out@ =~= old(out)@ + (class@ + ": "@ + m@));
        },
        None => {},
    }
}

fn push_throwable(h: &Host, v: Value, stack: &mut Vec<u32>, fuel: usize, out: &mut String) -> (over:
    bool)
    requires
        old(stack)@.len() <= RENDER_DEPTH_LIMIT,
    ensures
        final(stack)@ == old(stack)@,
        appended(old(out)@, final(out)@, over, render_throwable(h@, v, old(stack)@, fuel as nat)),
    decreases RENDER_DEPTH_LIMIT - old(stack)@.len(), fuel, 2int, 0int,
{
    match h.obj(v) {
        Some(HeapObj::Exc { class, msg }) => {
            push_exc(class.as_str(), msg, out);
            false
        },
        Some(HeapObj::Instance { class, fields, .. }) => if h.type_is_throwable(class.as_str()) {
            push_message(
                h,
                class.as_str(),
                find_field(fields, "message"),
                stack,
                fuel,
                out,
            )
        } else {
            push_value(h, v, stack, fuel, out)
        },
        _ => push_value(h, v, stack, fuel, out),
    }
}

fn push_counted(label: &str, n: usize, out: &mut String)
    ensures
        final(out)@ == old(out)@ + (label@ + decimal(n as int) + ")"@),
{
    out.append(label);
    out.append(unsigned_to_radix(n as u64, 10).as_str());
    out.append(")");
    assert(out@ =~= old(out)@ + (label@ + decimal(n as int) + ")"@));
}

fn push_identity(name: &str, id: u32, out: &mut String)
    ensures
        final(out)@ == old(out)@ + (name@ + "@"@ + nat_digits(id as nat, 16)),
{
    out.append(name);
    out.append("@");
    out.append(unsigned_to_radix(id as u64, 16).as_str());
    assert(out@ =~= old(out)@ + (name@ + "@"@ + nat_digits(id as nat, 16)));
}

fn push_couple(
    h: &Host,
    open: &str,
    a: Value,
    middle: &str,
    b: Value,
    close: &str,
    stack: &mut Vec<u32>,
    fuel: usize,
    out: &mut String,
) -> (over: bool)
    requires
        old(stack)@.len() <= RENDER_DEPTH_LIMIT,
    ensures
        final(stack)@ == old(stack)@,
        final(out)@ == old(out)@ + (open@ + render(h@, a, old(stack)@, fuel as nat).0 + middle@
            + render(h@, b, old(stack)@, fuel as nat).0 + close@),
        over == (render(h@, a, old(stack)@, fuel as nat).1 || render(
            h@,
            b,
            old(stack)@,
            fuel as nat,
        ).1),
    decreases RENDER_DEPTH_LIMIT - old(stack)@.len(), fuel, 1int, 0int,
{
    out.append(open);
    let x: bool = push_value(h, a, stack, fuel, out);
    out.append(middle);
    let y: bool = push_value(h, b, stack, fuel, out);
    out.append(close);
    assert(out@ =~= old(out)@ + (open@ + render(h@, a, old(stack)@, fuel as nat).0 + middle@
        + render(h@, b, old(stack)@, fuel as nat).0 + close@));
    x || y
}

fn push_obj(
    h: &Host,
    id: u32,
    o: &HeapObj,
    stack: &mut Vec<u32>,
    fuel: usize,
    out: &mut String,
) -> (over: bool)
    requires
        old(stack)@.len() <= RENDER_DEPTH_LIMIT,
    ensures
        final(stack)@ == old(stack)@,
        appended(old(out)@, final(out)@, over, render_obj(h@, id, o@, old(stack)@, fuel as nat)),
    decreases RENDER_DEPTH_LIMIT - old(stack)@.len(), fuel, 3int, 0int,
{
    let ghost want = render_obj(h@, id, o@, stack@, fuel as nat);
    let deep: bool = stack.len() >= RENDER_DEPTH_LIMIT;
    match o {
        HeapObj::Instance { class, is_data, fields, data_from, data_len } => if *is_data {
            if deep {
                assert(out@ + Seq::<char>::empty() =~= out@);
                return true;
            }
            out.append(class.as_str());
            out.append("(");
            stack.push(id);
            let over: bool = push_fields(
                h,
                fields,
                *data_from,
                *data_len,
                stack,
                depth_budget(h),
                out,
            );
            stack.pop();
            out.append(")");
            assert(stack@ =~= old(stack)@);
            assert(out@ =~= old(out)@ + want.0);
            over
        } else if h.is_enum_class(class.as_str()) {
            match find_field(fields, "name") {
                Some(x) => push_value(h, x, stack, fuel, out),
                None => {
                    out.append(class.as_str());
                    false
                },
            }
        } else if h.type_is_throwable(class.as_str()) {
            push_message(h, class.as_str(), find_field(fields, "message"), stack, fuel, out)
        } else {
            push_identity(class.as_str(), id, out);
            false
        },
        HeapObj::List(items) => {
            if deep {
                assert(out@ + Seq::<char>::empty() =~= out@);
                return true;
            }
            let over: bool = push_bracketed(h, id, items, stack, out);
            assert(out@ =~= old(out)@ + want.0);
            over
        },
        HeapObj::SetObj(items) => {
            if deep {
                assert(out@ + Seq::<char>::empty() =~= out@);
                return true;
            }
            let over: bool = push_bracketed(h, id, items, stack, out);
            assert(out@ =~= old(out)@ + want.0);
            over
        },
        HeapObj::MapObj(entries) => {
            if deep {
                assert(out@ + Seq::<char>::empty() =~= out@);
                return true;
            }
            out.append("{");
            stack.push(id);
            let over: bool = push_entries(h, entries, stack, depth_budget(h), out);
            stack.pop();
            out.append("}");
            assert(stack@ =~= old(stack)@);
            assert(out@ =~= old(out)@ + want.0);
            over
        },
        HeapObj::Pair(a, b) => {
            let over: bool = push_couple(h, "(", *a, ", ", *b, ")", stack, fuel, out);
            assert(out@ =~= old(out)@ + want.0);
            over
        },
        HeapObj::Entry(a, b) => {
            let over: bool = push_couple(h, "", *a, "=", *b, "", stack, fuel, out);
            proof {
                reveal_strlit("");
            }
            assert(""@ =~= Seq::empty());
            assert(out@ =~= old(out)@ + want.0);
            over
        },
        HeapObj::Triple(a, b, c) => {
            let x: bool = push_couple(h, "(", *a, ", ", *b, ", ", stack, fuel, out);
            let y: bool = push_value(h, *c, stack, fuel, out);
            out.append(")");
            assert(out@ =~= old(out)@ + want.0);
            x || y
        },
        HeapObj::Res { value, err } => match err {
            Some(e) => {
                out.append("Failure(");
                let over: bool = push_throwable(h, *e, stack, fuel, out);
                out.append(")");
                assert(out@ =~= old(out)@ + want.0);
                over
            },
            None => {
                out.append("Success(");
                let over: bool = push_value(h, *value, stack, fuel, out);
                out.append(")");
                assert(out@ =~= old(out)@ + want.0);
                over
            },
        },
        HeapObj::Lazy { cached, .. } => match cached {
            Some(x) => push_value(h, *x, stack, fuel, out),
            None => {
                out.append("Lazy value not initialized yet.");
                false
            },
        },
        HeapObj::Closure { params, .. } => {
            push_counted("(lambda arity=", *params as usize, out);
            false
        },
        HeapObj::Comparator(keys) => {
            push_counted("(comparator keys=", keys.len(), out);
            false
        },
        HeapObj::Gen { stages, .. } => {
            push_counted("(sequence stages=", stages.len(), out);
            false
        },
        HeapObj::Grouping { items, .. } => {
            push_counted("(grouping size=", items.len(), out);
            false
        },
        HeapObj::Range(r) => {
            push_range(r, out);
            false
        },
        HeapObj::Array { desc, .. } => {
            push_identity(desc.as_str(), id, out);
            false
        },
        HeapObj::Builder { units, .. } => {
            out.append(utf16_to_string(units).as_str());
            false
        },
        HeapObj::Exc { class, msg } => {
            push_exc(class.as_str(), msg, out);
            false
        },
    }
}

fn push_bracketed(h: &Host, id: u32, items: &Vec<Value>, stack: &mut Vec<u32>, out: &mut String) -> (
    over: bool)
    requires
        old(stack)@.len() < RENDER_DEPTH_LIMIT,
    ensures
        final(stack)@ == old(stack)@,
        final(out)@ == old(out)@ + ("["@ + render_items(
            h@,
            items@,
            0,
            old(stack)@.push(id),
            budget(h@),
        ).0 + "]"@),
        over == render_items(h@, items@, 0, old(stack)@.push(id), budget(h@)).1,
    decreases RENDER_DEPTH_LIMIT - old(stack)@.len(), 0int, 0int, 0int,
{
    out.append("[");
    stack.push(id);
    let over: bool = push_items(h, items, stack, depth_budget(h), out);
    stack.pop();
    out.append("]");
    assert(stack@ =~= old(stack)@);
    assert(out@ =~= old(out)@ + ("["@ + render_items(
        h@,
        items@,
        0,
        old(stack)@.push(id),
        budget(h@),
    ).0 + "]"@));
    over
}

fn push_element(
    h: &Host,
    v: Value,
    in_map: bool,
    stack: &mut Vec<u32>,
    fuel: usize,
    out: &mut String,
) -> (over: bool)
    requires
        old(stack)@.len() <= RENDER_DEPTH_LIMIT,
    ensures
        final(stack)@ == old(stack)@,
        appended(
            old(out)@,
            final(out)@,
            over,
            render_element(h@, v, in_map, old(stack)@, fuel as nat),
        ),
    decreases RENDER_DEPTH_LIMIT - old(stack)@.len(), fuel, 1int, 0int,
{
    if let Value::Obj(id) = v {
        if stack.len() > 0 && stack[stack.len() - 1] == id {
            out.append(
                if in_map {
                    "(this Map)"
                } else {
                    "(this Collection)"
                },
            );
            return false;
        }
    }
    push_value(h, v, stack, fuel, out)
}

fn push_items(
    h: &Host,
    items: &Vec<Value>,
    stack: &mut Vec<u32>,
    fuel: usize,
    out: &mut String,
) -> (over: bool)
    requires
        old(stack)@.len() <= RENDER_DEPTH_LIMIT,
    ensures
        final(stack)@ == old(stack)@,
        appended(
            old(out)@,
            final(out)@,
            over,
            render_items(h@, items@, 0, old(stack)@, fuel as nat),
        ),
    decreases RENDER_DEPTH_LIMIT - old(stack)@.len(), fuel, 4int, 0int,
{
    let ghost all = render_items(h@, items@, 0, stack@, fuel as nat);
    let mut over: bool = false;
    let mut i: usize = 0;
    assert(out@ + all.0 == old(out)@ + all.0);
    while i < items.len()
        invariant
            i <= items@.len(),
            stack@ == old(stack)@,
            stack@.len() <= RENDER_DEPTH_LIMIT,
            all == render_items(h@, items@, 0, old(stack)@, fuel as nat),
            out@ + render_items(h@, items@, i as int, stack@, fuel as nat).0 == old(out)@ + all.0,
            (over || render_items(h@, items@, i as int, stack@, fuel as nat).1) == all.1,
        decreases items.len() - i,
    {
        let ghost before = out@;
        let ghost rest = render_items(h@, items@, i + 1, stack@, fuel as nat);
        let x: bool = push_element(h, items[i], false, stack, fuel, out);
        over = over || x;
        if i + 1 < items.len() {
            out.append(", ");
        }
        assert(out@ + rest.0 =~= before + render_items(
            h@,
            items@,
            i as int,
            stack@,
            fuel as nat,
        ).0);
        i = i + 1;
    }
    assert(out@ + Seq::<char>::empty() =~= out@);
    over
}

fn push_entries(
    h: &Host,
    es: &Vec<(Value, Value)>,
    stack: &mut Vec<u32>,
    fuel: usize,
    out: &mut String,
) -> (over: bool)
    requires
        old(stack)@.len() <= RENDER_DEPTH_LIMIT,
    ensures
        final(stack)@ == old(stack)@,
        appended(
            old(out)@,
            final(out)@,
            over,
            render_entries(h@, es@, 0, old(stack)@, fuel as nat),
        ),
    decreases RENDER_DEPTH_LIMIT - old(stack)@.len(), fuel, 4int, 0int,
{
    let ghost all = render_entries(h@, es@, 0, stack@, fuel as nat);
    let mut over: bool = false;
    let mut i: usize = 0;
    while i < es.len()
        invariant
            i <= es@.len(),
            stack@ == old(stack)@,
            stack@.len() <= RENDER_DEPTH_LIMIT,
            all == render_entries(h@, es@, 0, old(stack)@, fuel as nat),
            out@ + render_entries(h@, es@, i as int, stack@, fuel as nat).0 == old(out)@ + all.0,
            (over || render_entries(h@, es@, i as int, stack@, fuel as nat).1) == all.1,
        decreases es.len() - i,
    {
        let ghost before = out@;
        let ghost rest = render_entries(h@, es@, i + 1, stack@, fuel as nat);
        let x: bool = push_element(h, es[i].0, true, stack, fuel, out);
        out.append("=");
        let y: bool = push_element(h, es[i].1, true, stack, fuel, out);
        over = over || x || y;
        if i + 1 < es.len() {
            out.append(", ");
        }
        assert(out@ + rest.0 =~= before + render_entries(
            h@,
            es@,
            i as int,
            stack@,
            fuel as nat,
        ).0);
        i = i + 1;
    }
    assert(out@ + Seq::<char>::empty() =~= out@);
    over
}

fn push_fields(
    h: &Host,
    fields: &Vec<(String, Value)>,
    from: usize,
    len: usize,
    stack: &mut Vec<u32>,
    fuel: usize,
    out: &mut String,
) -> (over: bool)
    requires
        old(stack)@.len() <= RENDER_DEPTH_LIMIT,
    ensures
        final(stack)@ == old(stack)@,
        appended(
            old(out)@,
            final(out)@,
            over,
            render_fields(
                h@,
                data_fields(fields_view(fields@), from as int, len as int),
                0,
                old(stack)@,
                fuel as nat,
            ),
        ),
    decreases RENDER_DEPTH_LIMIT - old(stack)@.len(), fuel, 4int, 0int,
{
    let start: usize = if from < fields.len() {
        from
    } else {
        fields.len()
    };
    let end: usize = if len < fields.len() - start {
        start + len
    } else {
        fields.len()
    };
    let ghost own = data_fields(fields_view(fields@), from as int, len as int);
    let ghost all = render_fields(h@, own, 0, stack@, fuel as nat);
    let mut over: bool = false;
    let mut i: usize = start;
    while i < end
        invariant
            start <= i <= end <= fields@.len(),
            own == fields_view(fields@).subrange(start as int, end as int),
            stack@ == old(stack)@,
            stack@.len() <= RENDER_DEPTH_LIMIT,
            all == render_fields(h@, own, 0, old(stack)@, fuel as nat),
            out@ + render_fields(h@, own, i - start, stack@, fuel as nat).0 == old(out)@ + all.0,
            (over || render_fields(h@, own, i - start, stack@, fuel as nat).1) == all.1,
        decreases end - i,
    {
        let ghost before = out@;
        let ghost k = i - start;
        assert(own[k] == (fields@[i as int].0@, fields@[i as int].1));
        let ghost rest = render_fields(h@, own, k + 1, stack@, fuel as nat);
        out.append(fields[i].0.as_str());
        out.append("=");
        let x: bool = push_value(h, fields[i].1, stack, fuel, out);
        over = over || x;
        if i + 1 < end {
            out.append(", ");
        }
        assert(out@ + rest.0 =~= before + render_fields(h@, own, k, stack@, fuel as nat).0);
        i = i + 1;
    }
    assert(out@ + Seq::<char>::empty() =~= out@);
    over
}

/// Kotlin `Any?.toString()` for a value, and whether it ran too deep.
pub fn kotlin_string_checked(h: &Host, v: Value) -> (r: (String, bool))
    ensures
        (r.0@, r.1) == shown(h@, v),
{
    let mut out: String = String::new();
    let mut stack: Vec<u32> = Vec::new();
    let over: bool = push_value(h, v, &mut stack, depth_budget(h), &mut out);
    assert(stack@ =~= Seq::empty());
    assert(Seq::<char>::empty() + shown(h@, v).0 =~= shown(h@, v).0);
    (out, over)
}

/// Kotlin `Any?.toString()` for a value.
pub fn kotlin_string(h: &Host, v: Value) -> (s: String)
    ensures
        s@ == text_of(h@, v),
{
    kotlin_string_checked(h, v).0
}

/// A throwable's `toString()`: the class alone when the message is null, else
/// `class: message`. Another value falls back to its ordinary display form.
pub fn throwable_str(h: &Host, v: Value) -> (s: String)
    ensures
        s@ == render_throwable(h@, v, Seq::empty(), budget(h@)).0,
{
    let mut out: String = String::new();
    let mut stack: Vec<u32> = Vec::new();
    let _over: bool = push_throwable(h, v, &mut stack, depth_budget(h), &mut out);
    assert(stack@ =~= Seq::empty());
    assert(out@ =~= render_throwable(h@, v, Seq::empty(), budget(h@)).0);
    out
}

// ── With user overrides ─────────────────────────────────────────────────────

/// The display form of `v`, honouring `toString()` overrides: the class's own
/// when it declares one, else recursively through the containers, else the plain
/// form.
pub open spec fn show_walk(
    h: HostView,
    log: Answers,
    at: nat,
    v: Value,
    stack: Seq<u32>,
) -> Outcome<Rendered>
    decreases RENDER_DEPTH_LIMIT - stack.len(), 0int, 0int,
{
    let g = host_at(h, log, at);
    match consult(g, g.tostring_subs, log, at, v, None) {
        Err(s) => Err(s),
        Ok((Some(r), n)) => {
            let f = host_at(h, log, n);
            Ok((render(f, r, stack, budget(f)), n))
        },
        Ok((None, n)) => {
            let f = host_at(h, log, n);
            let deep = stack.len() >= RENDER_DEPTH_LIMIT;
            let inner = stack.push(v->Obj_0);
            match f.obj(v) {
                Some(ObjView::List(items)) => if deep {
                    Ok(((Seq::empty(), true), n))
                } else {
                    show_items(h, log, n, items, 0, inner, plain("["@))
                },
                Some(ObjView::SetObj(items)) => if deep {
                    Ok(((Seq::empty(), true), n))
                } else {
                    show_items(h, log, n, items, 0, inner, plain("["@))
                },
                Some(ObjView::MapObj(es)) => if deep {
                    Ok(((Seq::empty(), true), n))
                } else {
                    show_entries(h, log, n, es, 0, inner, plain("{"@))
                },
                Some(ObjView::Pair(a, b)) => if deep {
                    Ok(((Seq::empty(), true), n))
                } else {
                    show_couple(h, log, n, "("@, a, ", "@, b, ")"@, inner)
                },
                Some(ObjView::Entry(a, b)) => if deep {
                    Ok(((Seq::empty(), true), n))
                } else {
                    show_couple(h, log, n, ""@, a, "="@, b, ""@, inner)
                },
                _ => Ok((render(f, v, stack, budget(f)), n)),
            }
        },
    }
}

/// An element, or the placeholder for the container itself.
pub open spec fn show_element(
    h: HostView,
    log: Answers,
    at: nat,
    v: Value,
    in_map: bool,
    stack: Seq<u32>,
) -> Outcome<Rendered>
    decreases RENDER_DEPTH_LIMIT - stack.len(), 1int, 0int,
{
    match placeholder(v, stack, in_map) {
        Some(p) => Ok((plain(p), at)),
        None => show_walk(h, log, at, v, stack),
    }
}

/// `done`, the elements from position `i` on, and the closing bracket.
pub open spec fn show_items(
    h: HostView,
    log: Answers,
    at: nat,
    items: Seq<Value>,
    i: int,
    stack: Seq<u32>,
    done: Rendered,
) -> Outcome<Rendered>
    decreases RENDER_DEPTH_LIMIT - stack.len(), 2int, items.len() - i,
{
    if i < 0 || i >= items.len() {
        Ok((then_render(done, plain("]"@)), at))
    } else {
        match show_element(h, log, at, items[i], false, stack) {
            Err(s) => Err(s),
            Ok((r, n)) => show_items(
                h,
                log,
                n,
                items,
                i + 1,
                stack,
                then_render(then_render(done, r), plain(separator(i, items.len() as int))),
            ),
        }
    }
}

/// `done`, the entries from position `i` on, and the closing brace.
pub open spec fn show_entries(
    h: HostView,
    log: Answers,
    at: nat,
    es: Seq<(Value, Value)>,
    i: int,
    stack: Seq<u32>,
    done: Rendered,
) -> Outcome<Rendered>
    decreases RENDER_DEPTH_LIMIT - stack.len(), 2int, es.len() - i,
{
    if i < 0 || i >= es.len() {
        Ok((then_render(done, plain("}"@)), at))
    } else {
        match show_element(h, log, at, es[i].0, true, stack) {
            Err(s) => Err(s),
            Ok((k, n)) => match show_element(h, log, n, es[i].1, true, stack) {
                Err(s) => Err(s),
                Ok((x, m)) => show_entries(
                    h,
                    log,
                    m,
                    es,
                    i + 1,
                    stack,
                    then_render(
                        then_render(then_render(then_render(done, k), plain("="@)), x),
                        plain(separator(i, es.len() as int)),
                    ),
                ),
            },
        }
    }
}

/// Two values between fixed texts.
pub open spec fn show_couple(
    h: HostView,
    log: Answers,
    at: nat,
    open: Seq<char>,
    a: Value,
    middle: Seq<char>,
    b: Value,
    close: Seq<char>,
    stack: Seq<u32>,
) -> Outcome<Rendered>
    decreases RENDER_DEPTH_LIMIT - stack.len(), 1int, 0int,
{
    match show_walk(h, log, at, a, stack) {
        Err(s) => Err(s),
        Ok((x, n)) => match show_walk(h, log, n, b, stack) {
            Err(s) => Err(s),
            Ok((y, m)) => Ok(
                (
                    then_render(
                        then_render(then_render(then_render(plain(open), x), plain(middle)), y),
                        plain(close),
                    ),
                    m,
                ),
            ),
        },
    }
}

/// Whether a display walk that appended to `before` and answered `r` is what
/// `out` says.
pub open spec fn shown_so(
    r: Result<bool, Stop>,
    at: usize,
    before: Seq<char>,
    after: Seq<char>,
    out: Outcome<Rendered>,
) -> bool {
    match r {
        Ok(over) => out matches Ok((x, n)) && n == at && appended(before, after, over, x),
        Err(s) => out == Err::<(Rendered, nat), Stop>(s),
    }
}

fn walk_value(
    h: &Host,
    log: &mut Log,
    v: Value,
    stack: &mut Vec<u32>,
    out: &mut String,
) -> (r: Result<bool, Stop>)
    requires
        old(log).at <= old(log).answers@.len(),
        old(stack)@.len() <= RENDER_DEPTH_LIMIT,
    ensures
        final(log).answers == old(log).answers,
        final(log).at <= final(log).answers@.len(),
        final(stack)@ == old(stack)@,
        shown_so(
            r,
            final(log).at,
            old(out)@,
            final(out)@,
            show_walk(h@, old(log).answers@, old(log).at as nat, v, old(stack)@),
        ),
    decreases RENDER_DEPTH_LIMIT - old(stack)@.len(), 0int, 0int,
{
    match log.consult_tostring(h, v) {
        Err(s) => {
            return Err(s);
        },
        Ok(Some(r)) => {
            let g: &Host = log.now(h);
            return Ok(push_value(g, r, stack, depth_budget(g), out));
        },
        Ok(None) => {},
    }
    let deep: bool = stack.len() >= RENDER_DEPTH_LIMIT;
    let id: u32 = match v {
        Value::Obj(id) => id,
        _ => 0,
    };
    let g: &Host = log.now(h);
    match g.obj(v) {
        Some(HeapObj::List(items)) => {
            if deep {
                assert(out@ + Seq::<char>::empty() =~= out@);
                return Ok(true);
            }
            stack.push(id);
            let r: Result<bool, Stop> = walk_items(h, log, items, stack, out);
            stack.pop();
            assert(stack@ =~= old(stack)@);
            r
        },
        Some(HeapObj::SetObj(items)) => {
            if deep {
                assert(out@ + Seq::<char>::empty() =~= out@);
                return Ok(true);
            }
            stack.push(id);
            let r: Result<bool, Stop> = walk_items(h, log, items, stack, out);
            stack.pop();
            assert(stack@ =~= old(stack)@);
            r
        },
        Some(HeapObj::MapObj(es)) => {
            if deep {
                assert(out@ + Seq::<char>::empty() =~= out@);
                return Ok(true);
            }
            stack.push(id);
            let r: Result<bool, Stop> = walk_entries(h, log, es, stack, out);
            stack.pop();
            assert(stack@ =~= old(stack)@);
            r
        },
        Some(HeapObj::Pair(a, b)) => {
            if deep {
                assert(out@ + Seq::<char>::empty() =~= out@);
                return Ok(true);
            }
            stack.push(id);
            let r: Result<bool, Stop> = walk_couple(h, log, "(", *a, ", ", *b, ")", stack, out);
            stack.pop();
            assert(stack@ =~= old(stack)@);
            r
        },
        Some(HeapObj::Entry(a, b)) => {
            if deep {
                assert(out@ + Seq::<char>::empty() =~= out@);
                return Ok(true);
            }
            stack.push(id);
            let r: Result<bool, Stop> = walk_couple(h, log, "", *a, "=", *b, "", stack, out);
            stack.pop();
            assert(stack@ =~= old(stack)@);
            r
        },
        _ => Ok(push_value(g, v, stack, depth_budget(g), out)),
    }
}

fn walk_element(
    h: &Host,
    log: &mut Log,
    v: Value,
    in_map: bool,
    stack: &mut Vec<u32>,
    out: &mut String,
) -> (r: Result<bool, Stop>)
    requires
        old(log).at <= old(log).answers@.len(),
        old(stack)@.len() <= RENDER_DEPTH_LIMIT,
    ensures
        final(log).answers == old(log).answers,
        final(log).at <= final(log).answers@.len(),
        final(stack)@ == old(stack)@,
        shown_so(
            r,
            final(log).at,
            old(out)@,
            final(out)@,
            show_element(h@, old(log).answers@, old(log).at as nat, v, in_map, old(stack)@),
        ),
    decreases RENDER_DEPTH_LIMIT - old(stack)@.len(), 1int, 0int,
{
    if let Value::Obj(id) = v {
        if stack.len() > 0 && stack[stack.len() - 1] == id {
            out.append(
                if in_map {
                    "(this Map)"
                } else {
                    "(this Collection)"
                },
            );
            return Ok(false);
        }
    }
    walk_value(h, log, v, stack, out)
}

fn walk_items(
    h: &Host,
    log: &mut Log,
    items: &Vec<Value>,
    stack: &mut Vec<u32>,
    out: &mut String,
) -> (r: Result<bool, Stop>)
    requires
        old(log).at <= old(log).answers@.len(),
        old(stack)@.len() <= RENDER_DEPTH_LIMIT,
    ensures
        final(log).answers == old(log).answers,
        final(log).at <= final(log).answers@.len(),
        final(stack)@ == old(stack)@,
        shown_so(
            r,
            final(log).at,
            old(out)@,
            final(out)@,
            show_items(
                h@,
                old(log).answers@,
                old(log).at as nat,
                items@,
                0,
                old(stack)@,
                plain("["@),
            ),
        ),
    decreases RENDER_DEPTH_LIMIT - old(stack)@.len(), 2int, 0int,
{
    let ghost before = out@;
    let ghost goal = show_items(h@, log.answers@, log.at as nat, items@, 0, stack@, plain("["@));
    let ghost mut done = plain("["@);
    out.append("[");
    let mut over: bool = false;
    let mut i: usize = 0;
    while i < items.len()
        invariant
            i <= items@.len(),
            log.answers == old(log).answers,
            log.at <= log.answers@.len(),
            stack@ == old(stack)@,
            stack@.len() <= RENDER_DEPTH_LIMIT,
            before == old(out)@,
            appended(before, out@, over, done),
            goal == show_items(
                h@,
                old(log).answers@,
                old(log).at as nat,
                items@,
                0,
                old(stack)@,
                plain("["@),
            ),
            show_items(h@, log.answers@, log.at as nat, items@, i as int, stack@, done) == goal,
        decreases items.len() - i,
    {
        let ghost here = out@;
        let ghost step = show_element(
            h@,
            log.answers@,
            log.at as nat,
            items@[i as int],
            false,
            stack@,
        );
        match walk_element(h, log, items[i], false, stack, out) {
            Err(s) => {
                return Err(s);
            },
            Ok(x) => {
                over = over || x;
            },
        }
        if i + 1 < items.len() {
            out.append(", ");
        }
        proof {
            done = then_render(
                then_render(done, step->Ok_0.0),
                plain(separator(i as int, items@.len() as int)),
            );
            assert(out@ =~= before + done.0);
        }
        i = i + 1;
    }
    out.append("]");
    assert(out@ =~= before + then_render(done, plain("]"@)).0);
    Ok(over)
}

fn walk_entries(
    h: &Host,
    log: &mut Log,
    es: &Vec<(Value, Value)>,
    stack: &mut Vec<u32>,
    out: &mut String,
) -> (r: Result<bool, Stop>)
    requires
        old(log).at <= old(log).answers@.len(),
        old(stack)@.len() <= RENDER_DEPTH_LIMIT,
    ensures
        final(log).answers == old(log).answers,
        final(log).at <= final(log).answers@.len(),
        final(stack)@ == old(stack)@,
        shown_so(
            r,
            final(log).at,
            old(out)@,
            final(out)@,
            show_entries(
                h@,
                old(log).answers@,
                old(log).at as nat,
                es@,
                0,
                old(stack)@,
                plain("{"@),
            ),
        ),
    decreases RENDER_DEPTH_LIMIT - old(stack)@.len(), 2int, 0int,
{
    let ghost before = out@;
    let ghost goal = show_entries(h@, log.answers@, log.at as nat, es@, 0, stack@, plain("{"@));
    let ghost mut done = plain("{"@);
    out.append("{");
    let mut over: bool = false;
    let mut i: usize = 0;
    while i < es.len()
        invariant
            i <= es@.len(),
            log.answers == old(log).answers,
            log.at <= log.answers@.len(),
            stack@ == old(stack)@,
            stack@.len() <= RENDER_DEPTH_LIMIT,
            before == old(out)@,
            appended(before, out@, over, done),
            goal == show_entries(
                h@,
                old(log).answers@,
                old(log).at as nat,
                es@,
                0,
                old(stack)@,
                plain("{"@),
            ),
            show_entries(h@, log.answers@, log.at as nat, es@, i as int, stack@, done) == goal,
        decreases es.len() - i,
    {
        let ghost first = show_element(
            h@,
            log.answers@,
            log.at as nat,
            es@[i as int].0,
            true,
            stack@,
        );
        match walk_element(h, log, es[i].0, true, stack, out) {
            Err(s) => {
                return Err(s);
            },
            Ok(x) => {
                over = over || x;
            },
        }
        out.append("=");
        let ghost second = show_element(
            h@,
            log.answers@,
            log.at as nat,
            es@[i as int].1,
            true,
            stack@,
        );
        match walk_element(h, log, es[i].1, true, stack, out) {
            Err(s) => {
                return Err(s);
            },
            Ok(x) => {
                over = over || x;
            },
        }
        if i + 1 < es.len() {
            out.append(", ");
        }
        proof {
            done = then_render(
                then_render(
                    then_render(then_render(done, first->Ok_0.0), plain("="@)),
                    second->Ok_0.0,
                ),
                plain(separator(i as int, es@.len() as int)),
            );
            assert(out@ =~= before + done.0);
        }
        i = i + 1;
    }
    out.append("}");
    assert(out@ =~= before + then_render(done, plain("}"@)).0);
    Ok(over)
}

fn walk_couple(
    h: &Host,
    log: &mut Log,
    open: &str,
    a: Value,
    middle: &str,
    b: Value,
    close: &str,
    stack: &mut Vec<u32>,
    out: &mut String,
) -> (r: Result<bool, Stop>)
    requires
        old(log).at <= old(log).answers@.len(),
        old(stack)@.len() <= RENDER_DEPTH_LIMIT,
    ensures
        final(log).answers == old(log).answers,
        final(log).at <= final(log).answers@.len(),
        final(stack)@ == old(stack)@,
        shown_so(
            r,
            final(log).at,
            old(out)@,
            final(out)@,
            show_couple(
                h@,
                old(log).answers@,
                old(log).at as nat,
                open@,
                a,
                middle@,
                b,
                close@,
                old(stack)@,
            ),
        ),
    decreases RENDER_DEPTH_LIMIT - old(stack)@.len(), 1int, 0int,
{
    let ghost before = out@;
    out.append(open);
    let ghost first = show_walk(h@, log.answers@, log.at as nat, a, stack@);
    let x: bool = match walk_value(h, log, a, stack, out) {
        Err(s) => {
            return Err(s);
        },
        Ok(x) => x,
    };
    out.append(middle);
    let ghost second = show_walk(h@, log.answers@, log.at as nat, b, stack@);
    let y: bool = match walk_value(h, log, b, stack, out) {
        Err(s) => {
            return Err(s);
        },
        Ok(y) => y,
    };
    out.append(close);
    assert(out@ =~= before + then_render(
        then_render(
            then_render(then_render(plain(open@), first->Ok_0.0), plain(middle@)),
            second->Ok_0.0,
        ),
        plain(close@),
    ).0);
    Ok(x || y)
}

/// The Kotlin display form of `v`, honouring user `toString()` overrides, and
/// whether the walk ran too deep.
pub fn display_vm(h: &Host, v: Value, answers: &Vec<Turn>) -> (r: Result<
    (String, bool),
    Stop,
>)
    ensures
        match r {
            Ok((s, over)) => result_of(show_walk(h@, answers@, 0, v, Seq::empty())) == Ok::<
                Rendered,
                Stop,
            >((s@, over)),
            Err(e) => result_of(show_walk(h@, answers@, 0, v, Seq::empty())) == Err::<
                Rendered,
                Stop,
            >(e),
        },
{
    let mut log = Log::new(answers);
    let mut out: String = String::new();
    let mut stack: Vec<u32> = Vec::new();
    let r: Result<bool, Stop> = walk_value(h, &mut log, v, &mut stack, &mut out);
    match r {
        Ok(over) => {
            proof {
                let w = show_walk(h@, answers@, 0, v, Seq::empty());
                assert(out@ =~= w->Ok_0.0.0);
            }
            Ok((out, over))
        },
        Err(s) => Err(s),
    }
}

/// The display forms of the values from position `i` on, behind those in `done`.
pub open spec fn show_each(
    h: HostView,
    log: Answers,
    at: nat,
    vs: Seq<Value>,
    i: int,
    done: Seq<Seq<char>>,
) -> Outcome<Seq<Seq<char>>>
    decreases vs.len() - i,
{
    if i < 0 || i >= vs.len() {
        Ok((done, at))
    } else {
        match show_walk(h, log, at, vs[i], Seq::empty()) {
            Err(s) => Err(s),
            Ok((r, n)) => show_each(h, log, n, vs, i + 1, done.push(r.0)),
        }
    }
}

/// The display forms of several values.
pub fn display_each(h: &Host, vs: &Vec<Value>, answers: &Vec<Turn>) -> (r: Result<
    Vec<String>,
    Stop,
>)
    ensures
        match r {
            Ok(ts) => result_of(show_each(h@, answers@, 0, vs@, 0, Seq::empty())) == Ok::<
                Seq<Seq<char>>,
                Stop,
            >(texts_view(ts@)),
            Err(e) => result_of(show_each(h@, answers@, 0, vs@, 0, Seq::empty())) == Err::<
                Seq<Seq<char>>,
                Stop,
            >(e),
        },
{
    let ghost goal = show_each(h@, answers@, 0, vs@, 0, Seq::empty());
    let mut log = Log::new(answers);
    let mut done: Vec<String> = Vec::new();
    let mut i: usize = 0;
    assert(texts_view(done@) =~= Seq::empty());
    while i < vs.len()
        invariant
            i <= vs@.len(),
            log.answers == answers,
            log.at <= answers@.len(),
            goal == show_each(h@, answers@, 0, vs@, 0, Seq::empty()),
            goal == show_each(h@, answers@, log.at as nat, vs@, i as int, texts_view(done@)),
        decreases vs.len() - i,
    {
        let mut out: String = String::new();
        let mut stack: Vec<u32> = Vec::new();
        let ghost w = show_walk(h@, answers@, log.at as nat, vs@[i as int], Seq::empty());
        assert(stack@ =~= Seq::empty());
        match walk_value(h, &mut log, vs[i], &mut stack, &mut out) {
            Err(s) => {
                return Err(s);
            },
            Ok(_) => {
                assert(out@ =~= w->Ok_0.0.0);
                let ghost before = texts_view(done@);
                done.push(out);
                assert(texts_view(done@) =~= before.push(w->Ok_0.0.0));
            },
        }
        i = i + 1;
    }
    Ok(done)
}

/// A `data` class shows its primary-constructor properties alone: two instances
/// that agree in them show the same text, whatever their other properties are.
pub proof fn law_data_text_sees_the_constructor(
    h: HostView,
    id: u32,
    class: Seq<char>,
    fa: Seq<(Seq<char>, Value)>,
    da: int,
    la: int,
    fb: Seq<(Seq<char>, Value)>,
    db: int,
    lb: int,
    stack: Seq<u32>,
    fuel: nat,
)
    requires
        data_fields(fa, da, la) == data_fields(fb, db, lb),
    ensures
        render_obj(
            h,
            id,
            ObjView::Instance { class, is_data: true, fields: fa, data_from: da, data_len: la },
            stack,
            fuel,
        ) == render_obj(
            h,
            id,
            ObjView::Instance { class, is_data: true, fields: fb, data_from: db, data_len: lb },
            stack,
            fuel,
        ),
{
}

/// A declared `toString` decides how its instances are shown, at any depth: it is
/// asked, and what it answers is shown.
pub proof fn law_declared_text_decides(
    h: HostView,
    log: Answers,
    at: nat,
    v: Value,
    stack: Seq<u32>,
)
    requires
        host_at(h, log, at).class_of(v) matches Some(class) && host_at(h, log, at).tostring_subs.contains_key(class),
    ensures
        at >= log.len() ==> show_walk(h, log, at, v, stack) == Err::<(Rendered, nat), Stop>(
            Stop::Ask(Call { sub: host_at(h, log, at).tostring_subs[host_at(h, log, at).class_of(v)->0], recv: v, other: None }),
        ),
        at < log.len() && log[at as int].answer is Some ==> show_walk(h, log, at, v, stack) == Ok::<
            (Rendered, nat),
            Stop,
        >(
            (
                render(
                    host_at(h, log, at + 1),
                    log[at as int].answer->0,
                    stack,
                    budget(host_at(h, log, at + 1)),
                ),
                at + 1,
            ),
        ),
{
}

} // verus!
