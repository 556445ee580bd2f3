//! The run-time state: the object heap, the tables its handles and values point
//! into, what the program declared about its classes, and the exception in
//! flight.
use crate::double::double_to_int;
use crate::table::Table;
use crate::text::same;
use crate::value::{char_code, Double, HeapObj, Value, CHAR_TAG};
use std::collections::HashMap;
use std::rc::Rc;
use vstd::prelude::*;

verus! {

use crate::double::truncated;
use crate::radix::long_number;
use crate::value::{code_of, DoubleView, ObjView};

broadcast use vstd::std_specs::hash::group_hash_axioms;

/// How a `Map`/`Set` orders its own iteration, when it is not by insertion.
#[derive(Clone, Copy, Debug, PartialEq, Eq, Structural)]
pub enum CollOrder {
    /// `java.util.HashMap`/`HashSet`: bucket-table order, from a table that
    /// started at the carried initial capacity.
    Hash(usize),
    /// `java.util.TreeSet`/`TreeMap`: ascending natural order of the keys.
    Sorted,
}

/// Which JVM class backs a Kotlin `List`, to the extent a program can observe
/// it: in the message an out-of-range index raises. An untagged list is a
/// `java.util.ArrayList`.
#[derive(Clone, Copy, Debug, PartialEq, Eq, Structural)]
pub enum ListImpl {
    /// A `listOf(…)` / `emptyList()` literal.
    Literal,
    /// The result of a member that ends in Kotlin's `optimizeReadOnlyList`.
    ReadOnly,
    /// The `sorted…` family over a collection receiver.
    Sorted,
    /// The list `buildList { … }` hands back.
    Builder,
}

/// The run-time state of one program run. What a handle points at is shared, so
/// that a copy of the state is cheap.
#[derive(Clone)]
pub struct Host {
    /// The objects, by handle.
    pub heap: Vec<Rc<HeapObj>>,
    /// The texts that `Value::Str` points at.
    pub texts: Vec<Rc<String>>,
    /// The numbers that `Value::Float` points at.
    pub doubles: Vec<Rc<Double>>,
    /// Declared type name to its supertypes, nearest first.
    pub types: Table<Vec<String>>,
    /// Class tag to its `toString()` subroutine.
    pub tostring_subs: Table<u16>,
    /// Class tag to its `equals(Any?)` subroutine.
    pub equals_subs: Table<u16>,
    /// Class tag to its `hashCode()` subroutine.
    pub hashcode_subs: Table<u16>,
    /// The class tags of `enum` constants.
    pub enums: Table<bool>,
    /// Class tag to one character per own property, `l` for a `Long` one.
    pub widths: Table<String>,
    /// Handle to the iteration discipline of a collection.
    pub order: HashMap<u32, CollOrder>,
    /// Handle to the class a list stands for.
    pub list_impl: HashMap<u32, ListImpl>,
    /// Handles that are a `Sequence` view of the list they are carried as.
    pub sequences: HashMap<u32, bool>,
    /// The exception currently unwinding.
    pub pending: Option<Value>,
    /// Exceptions parked across `finally` bodies, one per body being run.
    pub stash: Vec<Option<Value>>,
    /// Whether the program contains a `try`.
    pub catchable: bool,
    /// The report of the fault that stopped the run.
    pub error: Option<String>,
}

/// The run-time state as a mathematical value.
#[verifier::ext_equal]
pub struct HostView {
    pub heap: Seq<ObjView>,
    pub texts: Seq<Seq<char>>,
    pub doubles: Seq<DoubleView>,
    pub types: Map<Seq<char>, Seq<Seq<char>>>,
    pub tostring_subs: Map<Seq<char>, u16>,
    pub equals_subs: Map<Seq<char>, u16>,
    pub hashcode_subs: Map<Seq<char>, u16>,
    pub enums: Map<Seq<char>, bool>,
    pub widths: Map<Seq<char>, Seq<char>>,
    pub order: Map<u32, CollOrder>,
    pub list_impl: Map<u32, ListImpl>,
    pub sequences: Set<u32>,
    pub pending: Option<Value>,
    pub stash: Seq<Option<Value>>,
    pub catchable: bool,
    pub error: Option<Seq<char>>,
}

impl View for Host {
    type V = HostView;

    open spec fn view(&self) -> HostView {
        HostView {
            heap: self.heap@.map_values(|o: Rc<HeapObj>| o@),
            texts: self.texts@.map_values(|s: Rc<String>| s@),
            doubles: self.doubles@.map_values(|d: Rc<Double>| d@),
            types: self.types@,
            tostring_subs: self.tostring_subs@,
            equals_subs: self.equals_subs@,
            hashcode_subs: self.hashcode_subs@,
            enums: self.enums@,
            widths: self.widths@,
            order: self.order@,
            list_impl: self.list_impl@,
            sequences: self.sequences@.dom(),
            pending: self.pending,
            stash: self.stash@,
            catchable: self.catchable,
            error: crate::value::opt_text(self.error),
        }
    }
}

impl HostView {
    /// The object a value is a handle of.
    pub open spec fn obj(self, v: Value) -> Option<ObjView> {
        match v {
            Value::Obj(id) => if id < self.heap.len() {
                Some(self.heap[id as int])
            } else {
                None
            },
            _ => None,
        }
    }

    /// The text at a position of the text table.
    pub open spec fn text(self, id: usize) -> Seq<char> {
        if id < self.texts.len() {
            self.texts[id as int]
        } else {
            Seq::empty()
        }
    }

    /// The number at a position of the number table.
    pub open spec fn double(self, id: usize) -> DoubleView {
        if id < self.doubles.len() {
            self.doubles[id as int]
        } else {
            DoubleView { bits: 0, digits: seq!['0'], exp10: 0 }
        }
    }

    /// The state with `o` allocated. The heap stops growing before it would
    /// mint a handle that reads as a `Char`.
    pub open spec fn allocated(self, o: ObjView) -> HostView {
        if self.heap.len() < CHAR_TAG {
            HostView { heap: self.heap.push(o), ..self }
        } else {
            self
        }
    }

    /// The handle that the next allocation answers.
    pub open spec fn next_handle(self) -> Value {
        if self.heap.len() < CHAR_TAG {
            Value::Obj(self.heap.len() as u32)
        } else {
            Value::Undef
        }
    }

    /// The state with a further text.
    pub open spec fn with_text(self, s: Seq<char>) -> HostView {
        HostView { texts: self.texts.push(s), ..self }
    }

    /// The value of the next text.
    pub open spec fn next_text(self) -> Value {
        Value::Str(self.texts.len() as usize)
    }

    /// The state with a further number.
    pub open spec fn with_double(self, d: DoubleView) -> HostView {
        HostView { doubles: self.doubles.push(d), ..self }
    }

    /// The state with the object of `v` replaced.
    pub open spec fn with_obj(self, v: Value, o: ObjView) -> HostView {
        match v {
            Value::Obj(id) => HostView { heap: self.heap.update(id as int, o), ..self },
            _ => self,
        }
    }

    /// Whether `class` is the type `ty` or declared below it.
    pub open spec fn class_is(self, class: Seq<char>, ty: Seq<char>) -> bool {
        class == ty || (self.types.contains_key(class) && self.types[class].contains(ty))
    }

    /// Whether `class` is declared below `Throwable`.
    pub open spec fn class_is_throwable(self, class: Seq<char>) -> bool {
        self.class_is(class, "Throwable"@)
    }

    /// Whether `class` is the class of an `enum` constant.
    pub open spec fn class_is_enum(self, class: Seq<char>) -> bool {
        self.enums.contains_key(class)
    }

    /// The declared class of an instance.
    pub open spec fn class_of(self, v: Value) -> Option<Seq<char>> {
        match self.obj(v) {
            Some(ObjView::Instance { class, .. }) => Some(class),
            _ => None,
        }
    }

    /// A value as an integer: numbers lose their fraction, text is read, and
    /// anything else is 0.
    pub open spec fn to_int(self, v: Value) -> int {
        match v {
            Value::Int(n) => n as int,
            Value::Float(id) => truncated(self.double(id).bits),
            Value::Bool(b) => if b {
                1
            } else {
                0
            },
            Value::Str(id) => read_int(self.text(id)),
            _ => 0,
        }
    }

    /// The integral value of a number-like operand: a `Char`'s code unit, or
    /// the value's own integer form.
    pub open spec fn num_of(self, v: Value) -> int {
        match code_of(v) {
            Some(c) => c,
            None => self.to_int(v),
        }
    }
}

/// The integer that a text writes in decimal, or 0.
pub open spec fn read_int(s: Seq<char>) -> int {
    match long_number(s, 10) {
        Some(n) => n,
        None => 0,
    }
}

/// `fusevm::Value::to_int` of a text value: the integer that the text writes in
/// decimal, with an optional sign and nothing around it; 0 when it writes none
/// or one outside 64 bits.
#[verifier::external_body]
fn text_to_int(s: &str) -> (n: i64)
    ensures
        n == read_int(s@),
{
    fusevm::Value::str(s).to_int()
}

/// The bits of the double that the VM reads an integer (`Some`) or else a text
/// as.
pub uninterp spec fn vm_double(n: Option<int>, text: Seq<char>) -> u64;

/// `fusevm::Value::to_float` of an integer, when there is one, or of a text:
/// the bits of the double it answers.
#[verifier::external_body]
fn vm_to_double(n: Option<i64>, text: &str) -> (bits: u64)
    ensures
        bits == vm_double(
            match n {
                Some(k) => Some(k as int),
                None => None,
            },
            text@,
        ),
{
    match n {
        Some(k) => fusevm::Value::int(k).to_float().to_bits(),
        None => fusevm::Value::str(text).to_float().to_bits(),
    }
}

impl HostView {
    /// A value as a double, by its bits.
    pub open spec fn to_double(self, v: Value) -> u64 {
        match v {
            Value::Float(id) => self.double(id).bits,
            Value::Int(n) => vm_double(Some(n as int), Seq::empty()),
            Value::Bool(b) => if b {
                0x3ff0_0000_0000_0000
            } else {
                0
            },
            Value::Str(id) => vm_double(None, self.text(id)),
            _ => 0,
        }
    }
}

impl Host {
    /// The state before a run.
    pub fn new() -> (h: Host)
        ensures
            h@ == (HostView {
                heap: Seq::empty(),
                texts: Seq::empty(),
                doubles: Seq::empty(),
                types: Map::empty(),
                tostring_subs: Map::empty(),
                equals_subs: Map::empty(),
                hashcode_subs: Map::empty(),
                enums: Map::empty(),
                widths: Map::empty(),
                order: Map::empty(),
                list_impl: Map::empty(),
                sequences: Set::empty(),
                pending: None,
                stash: Seq::empty(),
                catchable: false,
                error: None,
            }),
    {
        Host {
            heap: Vec::new(),
            texts: Vec::new(),
            doubles: Vec::new(),
            types: Table::new(),
            tostring_subs: Table::new(),
            equals_subs: Table::new(),
            hashcode_subs: Table::new(),
            enums: Table::new(),
            widths: Table::new(),
            order: HashMap::new(),
            list_impl: HashMap::new(),
            sequences: HashMap::new(),
            pending: None,
            stash: Vec::new(),
            catchable: false,
            error: None,
        }
    }

    /// Clear the object heap and everything that refers to it, so that a fresh
    /// run starts with no residual objects. The declared enums and property
    /// widths, and the catch setting, stay.
    pub fn reset_heap(&mut self)
        ensures
            final(self)@ == (HostView {
                heap: Seq::empty(),
                order: Map::empty(),
                list_impl: Map::empty(),
                sequences: Set::empty(),
                types: Map::empty(),
                tostring_subs: Map::empty(),
                equals_subs: Map::empty(),
                hashcode_subs: Map::empty(),
                pending: None,
                stash: Seq::empty(),
                ..old(self)@
            }),
    {
        self.heap = Vec::new();
        self.order = HashMap::new();
        self.list_impl = HashMap::new();
        self.sequences = HashMap::new();
        self.types = Table::new();
        self.tostring_subs = Table::new();
        self.equals_subs = Table::new();
        self.hashcode_subs = Table::new();
        self.pending = None;
        self.stash = Vec::new();
    }

    /// Allocate `o` on the heap and answer its handle.
    ///
    /// Handles are dealt out from `0` upward and the top 64 K of the space is
    /// reserved for `Char`s, so the allocator stops before it would mint a
    /// handle that reads back as one, and answers `Undef`.
    pub fn allocate(&mut self, o: HeapObj) -> (v: Value)
        ensures
            final(self)@ == old(self)@.allocated(o@),
            v == old(self)@.next_handle(),
    {
        let n: usize = self.heap.len();
        if n >= CHAR_TAG as usize {
            return Value::Undef;
        }
        self.heap.push(Rc::new(o));
        Value::Obj(n as u32)
    }

    /// The value of a new text.
    pub fn text_value(&mut self, s: String) -> (v: Value)
        ensures
            final(self)@ == old(self)@.with_text(s@),
            v == old(self)@.next_text(),
    {
        let n: usize = self.texts.len();
        self.texts.push(Rc::new(s));
        Value::Str(n)
    }

    /// The value of a new number.
    pub fn double_value(&mut self, d: Double) -> (v: Value)
        ensures
            final(self)@ == old(self)@.with_double(d@),
            v == Value::Float(old(self)@.doubles.len() as usize),
    {
        let n: usize = self.doubles.len();
        self.doubles.push(Rc::new(d));
        Value::Float(n)
    }

    /// The object a value is a handle of. A `Char` is never one.
    pub fn obj(&self, v: Value) -> (r: Option<&HeapObj>)
        ensures
            match r {
                Some(o) => self@.obj(v) == Some(o@) && v is Obj && (v->Obj_0) < self.heap@.len()
                    && *o == *self.heap@[v->Obj_0 as int],
                None => self@.obj(v) is None,
            },
    {
        match v {
            Value::Obj(id) => if (id as usize) < self.heap.len() {
                Some(&*self.heap[id as usize])
            } else {
                None
            },
            _ => None,
        }
    }

    /// The text at a position of the text table.
    pub fn text(&self, id: usize) -> (s: &str)
        ensures
            s@ == self@.text(id),
    {
        if id < self.texts.len() {
            (&*self.texts[id]).as_str()
        } else {
            proof {
                reveal_strlit("");
            }
            assert(""@ =~= Seq::empty());
            ""
        }
    }

    /// The bits of the number at a position of the number table.
    pub fn bits(&self, id: usize) -> (b: u64)
        ensures
            b == self@.double(id).bits,
    {
        if id < self.doubles.len() {
            (&*self.doubles[id]).bits
        } else {
            0
        }
    }

    /// Replace the object of a live handle.
    pub fn replace(&mut self, id: u32, o: HeapObj)
        requires
            id < old(self)@.heap.len(),
        ensures
            final(self)@ == old(self)@.with_obj(Value::Obj(id), o@),
    {
        self.heap.set(id as usize, Rc::new(o));
    }

    /// A value as an integer.
    pub fn to_int(&self, v: Value) -> (n: i64)
        ensures
            n == self@.to_int(v),
    {
        match v {
            Value::Int(n) => n,
            Value::Float(id) => double_to_int(self.bits(id)),
            Value::Bool(b) => if b {
                1
            } else {
                0
            },
            Value::Str(id) => text_to_int(self.text(id)),
            _ => 0,
        }
    }

    /// The integral value of a number-like operand.
    pub fn num_of(&self, v: Value) -> (n: i64)
        ensures
            n == self@.num_of(v),
    {
        match char_code(&v) {
            Some(c) => c,
            None => self.to_int(v),
        }
    }

    /// A value as a double, by its bits.
    pub fn to_double(&self, v: Value) -> (bits: u64)
        ensures
            bits == self@.to_double(v),
    {
        match v {
            Value::Float(id) => self.bits(id),
            Value::Int(n) => {
                proof {
                    reveal_strlit("");
                }
                assert(""@ =~= Seq::empty());
                vm_to_double(Some(n), "")
            },
            Value::Bool(b) => if b {
                0x3ff0_0000_0000_0000
            } else {
                0
            },
            Value::Str(id) => vm_to_double(None, self.text(id)),
            _ => 0,
        }
    }

    /// Record a list's implementation class. A no-op for a non-handle.
    pub fn tag_list(&mut self, v: Value, which: ListImpl)
        ensures
            final(self)@ == old(self)@.with_list_tag(v, which),
    {
        if let Value::Obj(id) = v {
            self.list_impl.insert(id, which);
        }
    }

    /// Mark `v` as a `Sequence` view.
    pub fn tag_sequence(&mut self, v: Value)
        ensures
            final(self)@ == old(self)@.with_sequence_tag(v),
    {
        if let Value::Obj(id) = v {
            self.sequences.insert(id, true);
        }
    }

    /// Whether `v` is a `Sequence` view.
    pub fn is_sequence_view(&self, v: Value) -> (r: bool)
        ensures
            r == self@.is_sequence(v),
    {
        match v {
            Value::Obj(id) => self.sequences.contains_key(&id),
            _ => false,
        }
    }

    /// The class recorded for a list.
    pub fn list_tag(&self, v: Value) -> (r: Option<ListImpl>)
        ensures
            r == self@.list_tag(v),
    {
        match v {
            Value::Obj(id) => match self.list_impl.get(&id) {
                Some(t) => Some(*t),
                None => None,
            },
            _ => None,
        }
    }

    /// The discipline recorded for `v`, if it is not insertion order.
    pub fn order_of(&self, v: Value) -> (r: Option<CollOrder>)
        ensures
            r == self@.order_of(v),
    {
        match v {
            Value::Obj(id) => match self.order.get(&id) {
                Some(t) => Some(*t),
                None => None,
            },
            _ => None,
        }
    }

    /// Record the iteration discipline of a collection. A no-op for a
    /// non-handle.
    pub fn tag_order(&mut self, v: Value, ord: CollOrder)
        ensures
            final(self)@ == old(self)@.with_order(v, ord),
    {
        if let Value::Obj(id) = v {
            self.order.insert(id, ord);
        }
    }

    /// Whether the declared type `class` is `ty` itself or lists it as a
    /// supertype.
    pub fn type_is_a(&self, class: &str, ty: &str) -> (r: bool)
        ensures
            r == self@.class_is(class@, ty@),
    {
        if same(class, ty) {
            return true;
        }
        match self.types.get(class) {
            None => false,
            Some(supers) => {
                let ghost all = supers.deep_view();
                let mut i: usize = 0;
                while i < supers.len()
                    invariant
                        i <= supers@.len(),
                        self@.types.contains_key(class@),
                        self@.types[class@] == all,
                        class@ != ty@,
                        all.len() == supers@.len(),
                        forall|j: int| 0 <= j < supers@.len() ==> all[j] == supers@[j]@,
                        forall|j: int| 0 <= j < i ==> all[j] != ty@,
                    decreases supers.len() - i,
                {
                    if same(supers[i].as_str(), ty) {
                        assert(all[i as int] == ty@);
                        return true;
                    }
                    i = i + 1;
                }
                false
            },
        }
    }

    /// Whether the declared type `class` reaches `Throwable`.
    pub fn type_is_throwable(&self, class: &str) -> (r: bool)
        ensures
            r == self@.class_is_throwable(class@),
    {
        self.type_is_a(class, "Throwable")
    }

    /// Whether `class` is an `enum` constant's.
    pub fn is_enum_class(&self, class: &str) -> (r: bool)
        ensures
            r == self@.class_is_enum(class@),
    {
        self.enums.get(class).is_some()
    }

    /// Record a class's `Long`-property mask; an empty mask records nothing.
    pub fn register_widths(&mut self, class: &str, widths: &str)
        ensures
            final(self)@ == (if widths@.len() == 0 {
                old(self)@
            } else {
                HostView { widths: old(self)@.widths.insert(class@, widths@), ..old(self)@ }
            }),
    {
        if !widths.is_empty() {
            self.widths.insert(class, widths.to_owned());
        }
    }
}

impl HostView {
    /// The state with a list's class recorded.
    pub open spec fn with_list_tag(self, v: Value, which: ListImpl) -> HostView {
        match v {
            Value::Obj(id) => HostView { list_impl: self.list_impl.insert(id, which), ..self },
            _ => self,
        }
    }

    /// The class recorded for a list.
    pub open spec fn list_tag(self, v: Value) -> Option<ListImpl> {
        match v {
            Value::Obj(id) => if self.list_impl.contains_key(id) {
                Some(self.list_impl[id])
            } else {
                None
            },
            _ => None,
        }
    }

    /// The state with `v` marked as a `Sequence` view.
    pub open spec fn with_sequence_tag(self, v: Value) -> HostView {
        match v {
            Value::Obj(id) => HostView { sequences: self.sequences.insert(id), ..self },
            _ => self,
        }
    }

    /// Whether `v` is a `Sequence` view.
    pub open spec fn is_sequence(self, v: Value) -> bool {
        v matches Value::Obj(id) && self.sequences.contains(id)
    }

    /// The state with the iteration discipline of a collection recorded.
    pub open spec fn with_order(self, v: Value, ord: CollOrder) -> HostView {
        match v {
            Value::Obj(id) => HostView { order: self.order.insert(id, ord), ..self },
            _ => self,
        }
    }

    /// The iteration discipline recorded for `v`.
    pub open spec fn order_of(self, v: Value) -> Option<CollOrder> {
        match v {
            Value::Obj(id) => if self.order.contains_key(id) {
                Some(self.order[id])
            } else {
                None
            },
            _ => None,
        }
    }
}

/// Declare whether the program about to run contains a `try`.
pub fn set_catchable(host: &mut Host, on: bool)
    ensures
        final(host)@ == (HostView { catchable: on, ..old(host)@ }),
{
    host.catchable = on;
}

/// Take and clear any pending run-time fault report.
pub fn take_error(host: &mut Host) -> (r: Option<String>)
    ensures
        final(host)@ == (HostView { error: None, ..old(host)@ }),
        crate::value::opt_text(r) == old(host)@.error,
{
    host.error.take()
}

/// True while an exception is in flight and has not yet reached its handler.
pub fn unwinding(host: &Host) -> (r: bool)
    ensures
        r == (host@.pending is Some),
{
    host.pending.is_some()
}

/// Allocation never mints a `Char`: a fresh handle is below the range that
/// carries characters, and it is a handle no object had before.
pub proof fn law_fresh_handle(h: HostView, o: ObjView)
    ensures
        code_of(h.next_handle()) is None,
        h.next_handle() is Obj ==> h.obj(h.next_handle()) is None && h.allocated(o).obj(
            h.next_handle(),
        ) == Some(o),
{
}

/// Allocation leaves every live object as it was.
pub proof fn law_allocation_keeps_objects(h: HostView, o: ObjView, v: Value)
    requires
        h.obj(v) is Some,
    ensures
        h.allocated(o).obj(v) == h.obj(v),
{
}

} // verus!
