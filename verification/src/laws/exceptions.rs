//! What a program may rely on when it throws and catches, and when it asks what a
//! value is.
use crate::host::HostView;
use crate::value::{ObjView, Value};
use vstd::prelude::*;

verus! {

use crate::laws::names::lemma_names;
use crate::ops::vm_text;
use crate::compare::budget;
use crate::display::{render_throwable, text_of};
use crate::search::{ends_with, find_from, occurs_at, starts_with};
use crate::throwable::is_a;
use crate::throwing::{
    aborted, catches, constructed, faulted, is_throwable_name, named_throwable, parked, print_text,
    raised, unparked,
};
use crate::types::{boxed_class, cast_message, is_type, last_segment};
use crate::value::code_of;

// ── Names ───────────────────────────────────────────────────────────────────

proof fn lemma_segment_goes_on(s: Seq<char>, t: Seq<char>)
    requires
        forall|i: int| 0 <= i < t.len() ==> t[i] != '.',
    ensures
        last_segment(s + t) == last_segment(s) + t,
    decreases t.len(),
{
    if t.len() == 0 {
        assert(s + t =~= s);
        assert(last_segment(s) + t =~= last_segment(s));
    } else {
        lemma_segment_goes_on(s, t.drop_last());
        assert((s + t).drop_last() =~= s + t.drop_last());
        assert((last_segment(s) + t.drop_last()).push(t.last()) =~= last_segment(s) + t);
    }
}

/// A name without a dot is its own last segment, and so it is behind any package.
pub proof fn law_simple_names(package: Seq<char>, name: Seq<char>)
    requires
        forall|i: int| 0 <= i < name.len() ==> name[i] != '.',
    ensures
        last_segment(name) == name,
        last_segment(package.push('.') + name) == name,
{
    lemma_segment_goes_on(Seq::empty(), name);
    assert(Seq::<char>::empty() + name =~= name);
    lemma_segment_goes_on(package.push('.'), name);
}

proof fn lemma_no_mark_within(class: Seq<char>, detail: Seq<char>, i: int)
    requires
        forall|k: int| 0 <= k < class.len() ==> class[k] != ':',
        0 <= i <= class.len(),
    ensures
        find_from(class + ": "@ + detail, ": "@, i) == Some(class.len() as int),
    decreases class.len() - i,
{
    reveal_strlit(": ");
    let s = class + ": "@ + detail;
    if i < class.len() {
        assert(s.subrange(i, i + 2)[0] == class[i]);
        lemma_no_mark_within(class, detail, i + 1);
    } else {
        assert(s.subrange(i, i + 2) =~= ": "@);
    }
}

proof fn lemma_no_mark_at_all(class: Seq<char>, i: int)
    requires
        forall|k: int| 0 <= k < class.len() ==> class[k] != ':',
        0 <= i,
    ensures
        find_from(class, ": "@, i) is None,
    decreases class.len() + 1 - i,
{
    reveal_strlit(": ");
    if i + 2 <= class.len() {
        assert(class.subrange(i, i + 2)[0] == class[i]);
        lemma_no_mark_at_all(class, i + 1);
    }
}

proof fn lemma_throwable_name(root: Seq<char>, path: Seq<char>, kind: Seq<char>)
    requires
        root == "java."@ || root == "kotlin."@,
        kind == "Exception"@ || kind == "Error"@,
    ensures
        is_throwable_name(root + path + kind),
        forall|i: int| 0 <= i < root.len() ==> root[i] != ':',
        forall|i: int| 0 <= i < kind.len() ==> kind[i] != ':',
{
    reveal_strlit("java.");
    reveal_strlit("kotlin.");
    reveal_strlit("Exception");
    reveal_strlit("Error");
    let class = root + path + kind;
    assert(class.subrange(0, root.len() as int) =~= root);
    assert(occurs_at(class, root, 0));
    lemma_segment_goes_on(root + path, kind);
    let last = last_segment(class);
    assert(last.subrange(last.len() - kind.len(), last.len() as int) =~= kind);
    assert(ends_with(last, kind));
}

/// A message that begins with a class of Java or Kotlin whose name ends in
/// `Exception` or `Error` names that throwable. What follows the class and `": "`
/// is the throwable's message, which may itself hold `": "`; the class alone has
/// none.
pub proof fn law_messages_name_their_class(
    root: Seq<char>,
    path: Seq<char>,
    kind: Seq<char>,
    detail: Seq<char>,
)
    requires
        root == "java."@ || root == "kotlin."@,
        kind == "Exception"@ || kind == "Error"@,
        forall|i: int| 0 <= i < path.len() ==> path[i] != ':',
    ensures
        ({
            let class = root + path + kind;
            &&& named_throwable(class) == Some(ObjView::Exc { class, msg: None })
            &&& named_throwable(class + ": "@ + detail) == Some(
                ObjView::Exc { class, msg: Some(detail) },
            )
        }),
{
    let class = root + path + kind;
    lemma_throwable_name(root, path, kind);
    lemma_no_mark_at_all(class, 0);
    lemma_no_mark_within(class, detail, 0);
    reveal_strlit(": ");
    let s = class + ": "@ + detail;
    assert(s.take(class.len() as int) =~= class);
    assert(s.skip(class.len() + 2int) =~= detail);
}

/// A message that begins with no package of Java or Kotlin names no throwable.
pub proof fn law_other_messages_name_nothing(msg: Seq<char>)
    requires
        !starts_with(msg, "java."@),
        !starts_with(msg, "kotlin."@),
    ensures
        named_throwable(msg) is None,
{
    crate::search::lemma_find_bounds(msg, ": "@, 0);
    let (class, _) = crate::throwing::class_and_detail(msg);
    assert forall|p: Seq<char>| starts_with(class, p) implies #[trigger] starts_with(msg, p) by {
        assert(class.subrange(0, p.len() as int) =~= msg.subrange(0, p.len() as int));
    }
}

// ── Throwing ────────────────────────────────────────────────────────────────

/// Where the program can catch, a fault that names a throwable becomes that
/// throwable in flight, and the program goes on; where it cannot, the program stops
/// with the message that the JVM prints.
pub proof fn law_faults_are_thrown(h: HostView, msg: Seq<char>, o: ObjView)
    requires
        h.pending is None,
        named_throwable(msg) == Some(o),
        h.next_handle() is Obj,
    ensures
        ({
            let (g, halt) = faulted(h, msg);
            &&& halt == !h.catchable
            &&& h.catchable ==> g.pending is Some && g.obj(g.pending->0) == Some(o) && g.error
                == h.error
            &&& !h.catchable ==> g.pending is None && g.error == Some(
                "Exception in thread \"main\" "@ + msg,
            )
        }),
{
}

/// A throwable that is thrown is in flight, unless nothing can catch it: then the
/// program stops and prints it.
pub proof fn law_throwing(h: HostView, exc: Value)
    requires
        h.pending is None,
    ensures
        ({
            let (g, halt) = raised(h, exc);
            &&& halt == !h.catchable
            &&& h.catchable ==> g == (HostView { pending: Some(exc), ..h })
            &&& !h.catchable ==> g.pending is None && g.error == Some(
                "Exception in thread \"main\" "@ + render_throwable(
                    h,
                    exc,
                    Seq::empty(),
                    budget(h),
                ).0,
            )
        }),
{
}

/// What is thrown out of the program stops it and is printed, and is no longer in
/// flight.
pub proof fn law_uncaught(h: HostView, exc: Value)
    requires
        h.pending == Some(exc),
    ensures
        aborted(h).pending is None,
        aborted(h).error == Some(
            "Exception in thread \"main\" "@ + render_throwable(
                (HostView { pending: None, ..h }),
                exc,
                Seq::empty(),
                budget(h),
            ).0,
        ),
{
}

/// A throwable made with a message has the text of it; null is no message.
pub proof fn law_constructed_messages(h: HostView, class: Seq<char>, msg: Value)
    ensures
        constructed(h, class, Value::Undef) == (ObjView::Exc { class, msg: None }),
        !(msg is Undef) ==> constructed(h, class, msg) == (ObjView::Exc {
            class,
            msg: Some(text_of(h, msg)),
        }),
{
}

// ── Catching ────────────────────────────────────────────────────────────────

/// A built-in throwable in flight is caught by its own class and by every class
/// above it, whatever package its name is written with, and by nothing else.
pub proof fn law_built_in_throwables_are_caught(
    h: HostView,
    v: Value,
    package: Seq<char>,
    name: Seq<char>,
    msg: Option<Seq<char>>,
    want: Seq<char>,
)
    requires
        forall|i: int| 0 <= i < name.len() ==> name[i] != '.',
        code_of(v) is None,
        h.pending == Some(v),
        h.obj(v) == Some(ObjView::Exc { class: package.push('.') + name, msg }),
    ensures
        catches(h, want) <==> want == "Throwable"@ || is_a(name, want),
        is_type(h, v, want) ==> want == "Any"@ || want == "Throwable"@ || is_a(name, want),
{
    law_simple_names(package, name);
    lemma_names();
    let o = h.obj(v)->0;
    assert(o is Exc);
}

/// A declared throwable in flight is caught by its own class, by the classes it is
/// declared below, and by what those stand below among the built-in ones.
pub proof fn law_declared_throwables_are_caught(
    h: HostView,
    v: Value,
    class: Seq<char>,
    want: Seq<char>,
)
    requires
        h.pending == Some(v),
        h.class_of(v) == Some(class),
        h.types.contains_key(class),
        h.types[class].contains("Throwable"@),
    ensures
        catches(h, want) <==> want == "Throwable"@ || want == class || h.types[class].contains(want)
            || is_a(class, want),
{
}

/// With nothing in flight there is nothing to catch, and what is no throwable is
/// caught by `Throwable` alone.
pub proof fn law_nothing_to_catch(h: HostView, want: Seq<char>)
    ensures
        h.pending is None ==> !catches(h, want),
        h.pending matches Some(v) && h.obj(v) is None && want != "Throwable"@ ==> !catches(h, want),
{
}

/// A `finally` that throws nothing lets go on what was in flight before it; one
/// that throws has its own throwable in flight. Either way what was put aside
/// before stays put aside.
pub proof fn law_finally_blocks(h: HostView, exc: Option<Value>)
    ensures
        parked(h).pending is None,
        unparked(parked(h)).pending == h.pending,
        unparked(parked(h)).stash == h.stash,
        exc is Some ==> unparked(HostView { pending: exc, ..parked(h) }).pending == exc,
        unparked(HostView { pending: exc, ..parked(h) }).stash == h.stash,
{
    assert(h.stash.push(h.pending).drop_last() =~= h.stash);
}

// ── Printing ────────────────────────────────────────────────────────────────

/// `println` prints what `print` does, and a line break; without an argument the
/// break alone.
pub proof fn law_lines_are_ended(h: HostView, v: Value)
    requires
        h.pending is None,
    ensures
        print_text(h, Some(v), false) == Some(vm_text(h, v)),
        print_text(h, Some(v), true) == Some(vm_text(h, v) + "\n"@),
        print_text(h, None, true) == Some("\n"@),
{
    assert(Seq::<char>::empty() + "\n"@ =~= "\n"@);
}

// ── Type tests ──────────────────────────────────────────────────────────────

/// Numbers, characters, truth values and texts are each of their own types and of
/// none of the others; null is of no type.
pub proof fn law_scalar_types(h: HostView, v: Value)
    requires
        h.obj(v) is None,
    ensures
        is_type(h, v, "Int"@) == (v is Int),
        is_type(h, v, "Long"@) == (v is Int),
        is_type(h, v, "Short"@) == (v is Int),
        is_type(h, v, "Byte"@) == (v is Int),
        is_type(h, v, "Double"@) == (v is Float),
        is_type(h, v, "Float"@) == (v is Float),
        is_type(h, v, "Boolean"@) == (v is Bool),
        is_type(h, v, "String"@) == (v is Str),
        is_type(h, v, "CharSequence"@) == (v is Str),
        is_type(h, v, "Char"@) == (code_of(v) is Some),
        is_type(h, v, "Any"@) == !(v is Undef),
        !is_type(h, v, "StringBuilder"@),
        !is_type(h, v, "List"@),
        !is_type(h, v, "Set"@),
        !is_type(h, v, "Map"@),
        !is_type(h, v, "Collection"@),
        !is_type(h, v, "Iterable"@),
        !is_type(h, v, "Pair"@),
        !is_type(h, v, "Triple"@),
        !is_type(h, v, "Array"@),
        !is_type(h, v, "Throwable"@),
{
    lemma_names();
}

/// A collection is what it was made as, read-only or not; lists, sets and ranges
/// are collections, and maps, pairs and arrays are not.
pub proof fn law_collection_types(h: HostView, v: Value, o: ObjView)
    requires
        h.obj(v) == Some(o),
    ensures
        is_type(h, v, "List"@) == (o is List),
        is_type(h, v, "MutableList"@) == (o is List),
        is_type(h, v, "Set"@) == (o is SetObj),
        is_type(h, v, "MutableSet"@) == (o is SetObj),
        is_type(h, v, "Map"@) == (o is MapObj),
        is_type(h, v, "MutableMap"@) == (o is MapObj),
        is_type(h, v, "Collection"@) == (o is List || o is SetObj || o is Range),
        is_type(h, v, "Iterable"@) == (o is List || o is SetObj || o is Range),
        is_type(h, v, "Pair"@) == (o is Pair),
        is_type(h, v, "Triple"@) == (o is Triple),
        is_type(h, v, "Array"@) == (o is Array),
        is_type(h, v, "IntArray"@) == (o is Array),
        is_type(h, v, "DoubleArray"@) == (o is Array),
        is_type(h, v, "CharArray"@) == (o is Array),
        is_type(h, v, "BooleanArray"@) == (o is Array),
        is_type(h, v, "StringBuilder"@) == (o is Builder),
        is_type(h, v, "Appendable"@) == (o is Builder),
        is_type(h, v, "CharSequence"@) == (o is Builder),
        is_type(h, v, "Any"@),
        !is_type(h, v, "String"@),
        !is_type(h, v, "Int"@),
{
    lemma_names();
}

/// An instance is of its class and of the types that its class is declared below.
pub proof fn law_declared_types(h: HostView, v: Value, class: Seq<char>, ty: Seq<char>)
    requires
        code_of(v) is None,
        h.class_of(v) == Some(class),
    ensures
        is_type(h, v, "Any"@),
        is_type(h, v, ty) ==> ty == "Any"@ || ty == class || (h.types.contains_key(class)
            && h.types[class].contains(ty)),
        is_type(h, v, "Throwable"@) == h.class_is(class, "Throwable"@),
        !is_type(h, v, "List"@),
        !is_type(h, v, "Map"@),
{
    lemma_names();
}

// ── Casts ───────────────────────────────────────────────────────────────────

/// The boxed classes: of the package `java.lang`, under their Kotlin names but for
/// `Integer` and `Character`.
pub proof fn law_boxed_classes(ty: Seq<char>)
    ensures
        boxed_class("Int"@) == Some("java.lang.Integer"@),
        boxed_class("Char"@) == Some("java.lang.Character"@),
        ty == "Long"@ || ty == "Short"@ || ty == "Byte"@ || ty == "Double"@ || ty == "Float"@ || ty
            == "Boolean"@ || ty == "String"@ || ty == "StringBuilder"@ ==> boxed_class(ty) == Some(
            "java.lang."@ + ty,
        ),
{
    lemma_names();
    reveal_strlit("java.lang.");
    reveal_strlit("Long");
    reveal_strlit("java.lang.Long");
    assert("java.lang.Long"@ =~= "java.lang."@ + "Long"@);
    reveal_strlit("Short");
    reveal_strlit("java.lang.Short");
    assert("java.lang.Short"@ =~= "java.lang."@ + "Short"@);
    reveal_strlit("Byte");
    reveal_strlit("java.lang.Byte");
    assert("java.lang.Byte"@ =~= "java.lang."@ + "Byte"@);
    reveal_strlit("Double");
    reveal_strlit("java.lang.Double");
    assert("java.lang.Double"@ =~= "java.lang."@ + "Double"@);
    reveal_strlit("Float");
    reveal_strlit("java.lang.Float");
    assert("java.lang.Float"@ =~= "java.lang."@ + "Float"@);
    reveal_strlit("Boolean");
    reveal_strlit("java.lang.Boolean");
    assert("java.lang.Boolean"@ =~= "java.lang."@ + "Boolean"@);
    reveal_strlit("String");
    reveal_strlit("java.lang.String");
    assert("java.lang.String"@ =~= "java.lang."@ + "String"@);
    reveal_strlit("StringBuilder");
    reveal_strlit("java.lang.StringBuilder");
    assert("java.lang.StringBuilder"@ =~= "java.lang."@ + "StringBuilder"@);
}

/// A cast that fails says which class the value has, which was asked for, and that
/// a class of the program stands apart from the boxed ones.
pub proof fn law_failed_casts(h: HostView, n: i64, ty: Seq<char>)
    requires
        boxed_class(ty) is None,
        !crate::types::is_family_name(ty),
    ensures
        cast_message(h, Value::Int(n), ty) == "java.lang.ClassCastException: class "@
            + "java.lang.Integer"@ + " cannot be cast to class "@ + ty + (" ("@ + (
        "java.lang.Integer"@ + " is in "@ + "module java.base of loader 'bootstrap'"@ + "; "@ + (ty
            + " is in "@ + "unnamed module of loader 'app'"@)) + ")"@),
{
    lemma_names();
    reveal_strlit("value");
}

} // verus!
