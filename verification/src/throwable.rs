//! The built-in throwables and their class hierarchy.
use crate::text::same;
use vstd::prelude::*;

verus! {

/// A throwable the runtime can construct or raise.
#[derive(Clone, Copy, Debug, PartialEq, Eq, Structural)]
pub enum Builtin {
    Throwable,
    Exception,
    Error,
    RuntimeException,
    ArithmeticException,
    IllegalArgumentException,
    IllegalStateException,
    NumberFormatException,
    IndexOutOfBoundsException,
    StringIndexOutOfBoundsException,
    ArrayIndexOutOfBoundsException,
    NullPointerException,
    ClassCastException,
    UnsupportedOperationException,
    NegativeArraySizeException,
    NoSuchElementException,
    NotImplementedError,
    IllegalFormatException,
    UnknownFormatConversionException,
    IllegalFormatConversionException,
    MissingFormatArgumentException,
    IllegalFormatWidthException,
    IllegalFormatPrecisionException,
    FormatFlagsConversionMismatchException,
    VirtualMachineError,
    StackOverflowError,
}

impl Builtin {
    /// The simple class name.
    pub open spec fn simple_name(self) -> Seq<char> {
        match self {
            Builtin::Throwable => "Throwable"@,
            Builtin::Exception => "Exception"@,
            Builtin::Error => "Error"@,
            Builtin::RuntimeException => "RuntimeException"@,
            Builtin::ArithmeticException => "ArithmeticException"@,
            Builtin::IllegalArgumentException => "IllegalArgumentException"@,
            Builtin::IllegalStateException => "IllegalStateException"@,
            Builtin::NumberFormatException => "NumberFormatException"@,
            Builtin::IndexOutOfBoundsException => "IndexOutOfBoundsException"@,
            Builtin::StringIndexOutOfBoundsException => "StringIndexOutOfBoundsException"@,
            Builtin::ArrayIndexOutOfBoundsException => "ArrayIndexOutOfBoundsException"@,
            Builtin::NullPointerException => "NullPointerException"@,
            Builtin::ClassCastException => "ClassCastException"@,
            Builtin::UnsupportedOperationException => "UnsupportedOperationException"@,
            Builtin::NegativeArraySizeException => "NegativeArraySizeException"@,
            Builtin::NoSuchElementException => "NoSuchElementException"@,
            Builtin::NotImplementedError => "NotImplementedError"@,
            Builtin::IllegalFormatException => "IllegalFormatException"@,
            Builtin::UnknownFormatConversionException => "UnknownFormatConversionException"@,
            Builtin::IllegalFormatConversionException => "IllegalFormatConversionException"@,
            Builtin::MissingFormatArgumentException => "MissingFormatArgumentException"@,
            Builtin::IllegalFormatWidthException => "IllegalFormatWidthException"@,
            Builtin::IllegalFormatPrecisionException => "IllegalFormatPrecisionException"@,
            Builtin::FormatFlagsConversionMismatchException => "FormatFlagsConversionMismatchException"@,
            Builtin::VirtualMachineError => "VirtualMachineError"@,
            Builtin::StackOverflowError => "StackOverflowError"@,
        }
    }

    /// The fully-qualified class name. The package differs per class and is
    /// observable through `toString`.
    pub open spec fn qualified_name(self) -> Seq<char> {
        match self {
            Builtin::Throwable => "java.lang.Throwable"@,
            Builtin::Exception => "java.lang.Exception"@,
            Builtin::Error => "java.lang.Error"@,
            Builtin::RuntimeException => "java.lang.RuntimeException"@,
            Builtin::ArithmeticException => "java.lang.ArithmeticException"@,
            Builtin::IllegalArgumentException => "java.lang.IllegalArgumentException"@,
            Builtin::IllegalStateException => "java.lang.IllegalStateException"@,
            Builtin::NumberFormatException => "java.lang.NumberFormatException"@,
            Builtin::IndexOutOfBoundsException => "java.lang.IndexOutOfBoundsException"@,
            Builtin::StringIndexOutOfBoundsException => "java.lang.StringIndexOutOfBoundsException"@,
            Builtin::ArrayIndexOutOfBoundsException => "java.lang.ArrayIndexOutOfBoundsException"@,
            Builtin::NullPointerException => "java.lang.NullPointerException"@,
            Builtin::ClassCastException => "java.lang.ClassCastException"@,
            Builtin::UnsupportedOperationException => "java.lang.UnsupportedOperationException"@,
            Builtin::NegativeArraySizeException => "java.lang.NegativeArraySizeException"@,
            Builtin::NoSuchElementException => "java.util.NoSuchElementException"@,
            Builtin::NotImplementedError => "kotlin.NotImplementedError"@,
            Builtin::IllegalFormatException => "java.util.IllegalFormatException"@,
            Builtin::UnknownFormatConversionException => "java.util.UnknownFormatConversionException"@,
            Builtin::IllegalFormatConversionException => "java.util.IllegalFormatConversionException"@,
            Builtin::MissingFormatArgumentException => "java.util.MissingFormatArgumentException"@,
            Builtin::IllegalFormatWidthException => "java.util.IllegalFormatWidthException"@,
            Builtin::IllegalFormatPrecisionException => "java.util.IllegalFormatPrecisionException"@,
            Builtin::FormatFlagsConversionMismatchException => "java.util.FormatFlagsConversionMismatchException"@,
            Builtin::VirtualMachineError => "java.lang.VirtualMachineError"@,
            Builtin::StackOverflowError => "java.lang.StackOverflowError"@,
        }
    }

    /// The superclass, as far as the hierarchy reaches.
    pub open spec fn parent(self) -> Option<Builtin> {
        match self {
            Builtin::Throwable => None,
            Builtin::Exception => Some(Builtin::Throwable),
            Builtin::Error => Some(Builtin::Throwable),
            Builtin::RuntimeException => Some(Builtin::Exception),
            Builtin::ArithmeticException => Some(Builtin::RuntimeException),
            Builtin::IllegalArgumentException => Some(Builtin::RuntimeException),
            Builtin::IllegalStateException => Some(Builtin::RuntimeException),
            Builtin::NumberFormatException => Some(Builtin::IllegalArgumentException),
            Builtin::IndexOutOfBoundsException => Some(Builtin::RuntimeException),
            Builtin::StringIndexOutOfBoundsException => Some(Builtin::IndexOutOfBoundsException),
            Builtin::ArrayIndexOutOfBoundsException => Some(Builtin::IndexOutOfBoundsException),
            Builtin::NullPointerException => Some(Builtin::RuntimeException),
            Builtin::ClassCastException => Some(Builtin::RuntimeException),
            Builtin::UnsupportedOperationException => Some(Builtin::RuntimeException),
            Builtin::NegativeArraySizeException => Some(Builtin::RuntimeException),
            Builtin::NoSuchElementException => Some(Builtin::RuntimeException),
            Builtin::NotImplementedError => Some(Builtin::Error),
            Builtin::IllegalFormatException => Some(Builtin::IllegalArgumentException),
            Builtin::UnknownFormatConversionException => Some(Builtin::IllegalFormatException),
            Builtin::IllegalFormatConversionException => Some(Builtin::IllegalFormatException),
            Builtin::MissingFormatArgumentException => Some(Builtin::IllegalFormatException),
            Builtin::IllegalFormatWidthException => Some(Builtin::IllegalFormatException),
            Builtin::IllegalFormatPrecisionException => Some(Builtin::IllegalFormatException),
            Builtin::FormatFlagsConversionMismatchException => Some(Builtin::IllegalFormatException),
            Builtin::VirtualMachineError => Some(Builtin::Error),
            Builtin::StackOverflowError => Some(Builtin::VirtualMachineError),
        }
    }

    /// How many superclasses there are.
    pub open spec fn depth(self) -> nat {
        match self {
            Builtin::Throwable => 0,
            Builtin::Exception => 1,
            Builtin::Error => 1,
            Builtin::RuntimeException => 2,
            Builtin::ArithmeticException => 3,
            Builtin::IllegalArgumentException => 3,
            Builtin::IllegalStateException => 3,
            Builtin::NumberFormatException => 4,
            Builtin::IndexOutOfBoundsException => 3,
            Builtin::StringIndexOutOfBoundsException => 4,
            Builtin::ArrayIndexOutOfBoundsException => 4,
            Builtin::NullPointerException => 3,
            Builtin::ClassCastException => 3,
            Builtin::UnsupportedOperationException => 3,
            Builtin::NegativeArraySizeException => 3,
            Builtin::NoSuchElementException => 3,
            Builtin::NotImplementedError => 2,
            Builtin::IllegalFormatException => 4,
            Builtin::UnknownFormatConversionException => 5,
            Builtin::IllegalFormatConversionException => 5,
            Builtin::MissingFormatArgumentException => 5,
            Builtin::IllegalFormatWidthException => 5,
            Builtin::IllegalFormatPrecisionException => 5,
            Builtin::FormatFlagsConversionMismatchException => 5,
            Builtin::VirtualMachineError => 2,
            Builtin::StackOverflowError => 3,
        }
    }

    /// The class itself and its superclasses, nearest first.
    pub open spec fn lineage(self) -> Seq<Builtin>
        decreases self.depth(),
    {
        match self.parent() {
            Some(p) => seq![self] + p.lineage(),
            None => seq![self],
        }
    }

    /// The built-in throwable with that simple name.
    pub open spec fn named(simple: Seq<char>) -> Option<Builtin> {
        if simple == "Throwable"@ {
            Some(Builtin::Throwable)
        } else if simple == "Exception"@ {
            Some(Builtin::Exception)
        } else if simple == "Error"@ {
            Some(Builtin::Error)
        } else if simple == "RuntimeException"@ {
            Some(Builtin::RuntimeException)
        } else if simple == "ArithmeticException"@ {
            Some(Builtin::ArithmeticException)
        } else if simple == "IllegalArgumentException"@ {
            Some(Builtin::IllegalArgumentException)
        } else if simple == "IllegalStateException"@ {
            Some(Builtin::IllegalStateException)
        } else if simple == "NumberFormatException"@ {
            Some(Builtin::NumberFormatException)
        } else if simple == "IndexOutOfBoundsException"@ {
            Some(Builtin::IndexOutOfBoundsException)
        } else if simple == "StringIndexOutOfBoundsException"@ {
            Some(Builtin::StringIndexOutOfBoundsException)
        } else if simple == "ArrayIndexOutOfBoundsException"@ {
            Some(Builtin::ArrayIndexOutOfBoundsException)
        } else if simple == "NullPointerException"@ {
            Some(Builtin::NullPointerException)
        } else if simple == "ClassCastException"@ {
            Some(Builtin::ClassCastException)
        } else if simple == "UnsupportedOperationException"@ {
            Some(Builtin::UnsupportedOperationException)
        } else if simple == "NegativeArraySizeException"@ {
            Some(Builtin::NegativeArraySizeException)
        } else if simple == "NoSuchElementException"@ {
            Some(Builtin::NoSuchElementException)
        } else if simple == "NotImplementedError"@ {
            Some(Builtin::NotImplementedError)
        } else if simple == "IllegalFormatException"@ {
            Some(Builtin::IllegalFormatException)
        } else if simple == "UnknownFormatConversionException"@ {
            Some(Builtin::UnknownFormatConversionException)
        } else if simple == "IllegalFormatConversionException"@ {
            Some(Builtin::IllegalFormatConversionException)
        } else if simple == "MissingFormatArgumentException"@ {
            Some(Builtin::MissingFormatArgumentException)
        } else if simple == "IllegalFormatWidthException"@ {
            Some(Builtin::IllegalFormatWidthException)
        } else if simple == "IllegalFormatPrecisionException"@ {
            Some(Builtin::IllegalFormatPrecisionException)
        } else if simple == "FormatFlagsConversionMismatchException"@ {
            Some(Builtin::FormatFlagsConversionMismatchException)
        } else if simple == "VirtualMachineError"@ {
            Some(Builtin::VirtualMachineError)
        } else if simple == "StackOverflowError"@ {
            Some(Builtin::StackOverflowError)
        } else {
            None
        }
    }

    fn of_name(simple: &str) -> (r: Option<Builtin>)
        ensures
            r == Builtin::named(simple@),
    {
        if same(simple, "Throwable") {
            Some(Builtin::Throwable)
        } else if same(simple, "Exception") {
            Some(Builtin::Exception)
        } else if same(simple, "Error") {
            Some(Builtin::Error)
        } else if same(simple, "RuntimeException") {
            Some(Builtin::RuntimeException)
        } else if same(simple, "ArithmeticException") {
            Some(Builtin::ArithmeticException)
        } else if same(simple, "IllegalArgumentException") {
            Some(Builtin::IllegalArgumentException)
        } else if same(simple, "IllegalStateException") {
            Some(Builtin::IllegalStateException)
        } else if same(simple, "NumberFormatException") {
            Some(Builtin::NumberFormatException)
        } else if same(simple, "IndexOutOfBoundsException") {
            Some(Builtin::IndexOutOfBoundsException)
        } else if same(simple, "StringIndexOutOfBoundsException") {
            Some(Builtin::StringIndexOutOfBoundsException)
        } else if same(simple, "ArrayIndexOutOfBoundsException") {
            Some(Builtin::ArrayIndexOutOfBoundsException)
        } else if same(simple, "NullPointerException") {
            Some(Builtin::NullPointerException)
        } else if same(simple, "ClassCastException") {
            Some(Builtin::ClassCastException)
        } else if same(simple, "UnsupportedOperationException") {
            Some(Builtin::UnsupportedOperationException)
        } else if same(simple, "NegativeArraySizeException") {
            Some(Builtin::NegativeArraySizeException)
        } else if same(simple, "NoSuchElementException") {
            Some(Builtin::NoSuchElementException)
        } else if same(simple, "NotImplementedError") {
            Some(Builtin::NotImplementedError)
        } else if same(simple, "IllegalFormatException") {
            Some(Builtin::IllegalFormatException)
        } else if same(simple, "UnknownFormatConversionException") {
            Some(Builtin::UnknownFormatConversionException)
        } else if same(simple, "IllegalFormatConversionException") {
            Some(Builtin::IllegalFormatConversionException)
        } else if same(simple, "MissingFormatArgumentException") {
            Some(Builtin::MissingFormatArgumentException)
        } else if same(simple, "IllegalFormatWidthException") {
            Some(Builtin::IllegalFormatWidthException)
        } else if same(simple, "IllegalFormatPrecisionException") {
            Some(Builtin::IllegalFormatPrecisionException)
        } else if same(simple, "FormatFlagsConversionMismatchException") {
            Some(Builtin::FormatFlagsConversionMismatchException)
        } else if same(simple, "VirtualMachineError") {
            Some(Builtin::VirtualMachineError)
        } else if same(simple, "StackOverflowError") {
            Some(Builtin::StackOverflowError)
        } else {
            None
        }
    }

    fn simple(self) -> (r: &'static str)
        ensures
            r@ == self.simple_name(),
    {
        match self {
            Builtin::Throwable => "Throwable",
            Builtin::Exception => "Exception",
            Builtin::Error => "Error",
            Builtin::RuntimeException => "RuntimeException",
            Builtin::ArithmeticException => "ArithmeticException",
            Builtin::IllegalArgumentException => "IllegalArgumentException",
            Builtin::IllegalStateException => "IllegalStateException",
            Builtin::NumberFormatException => "NumberFormatException",
            Builtin::IndexOutOfBoundsException => "IndexOutOfBoundsException",
            Builtin::StringIndexOutOfBoundsException => "StringIndexOutOfBoundsException",
            Builtin::ArrayIndexOutOfBoundsException => "ArrayIndexOutOfBoundsException",
            Builtin::NullPointerException => "NullPointerException",
            Builtin::ClassCastException => "ClassCastException",
            Builtin::UnsupportedOperationException => "UnsupportedOperationException",
            Builtin::NegativeArraySizeException => "NegativeArraySizeException",
            Builtin::NoSuchElementException => "NoSuchElementException",
            Builtin::NotImplementedError => "NotImplementedError",
            Builtin::IllegalFormatException => "IllegalFormatException",
            Builtin::UnknownFormatConversionException => "UnknownFormatConversionException",
            Builtin::IllegalFormatConversionException => "IllegalFormatConversionException",
            Builtin::MissingFormatArgumentException => "MissingFormatArgumentException",
            Builtin::IllegalFormatWidthException => "IllegalFormatWidthException",
            Builtin::IllegalFormatPrecisionException => "IllegalFormatPrecisionException",
            Builtin::FormatFlagsConversionMismatchException => "FormatFlagsConversionMismatchException",
            Builtin::VirtualMachineError => "VirtualMachineError",
            Builtin::StackOverflowError => "StackOverflowError",
        }
    }

    fn qualified(self) -> (r: &'static str)
        ensures
            r@ == self.qualified_name(),
    {
        match self {
            Builtin::Throwable => "java.lang.Throwable",
            Builtin::Exception => "java.lang.Exception",
            Builtin::Error => "java.lang.Error",
            Builtin::RuntimeException => "java.lang.RuntimeException",
            Builtin::ArithmeticException => "java.lang.ArithmeticException",
            Builtin::IllegalArgumentException => "java.lang.IllegalArgumentException",
            Builtin::IllegalStateException => "java.lang.IllegalStateException",
            Builtin::NumberFormatException => "java.lang.NumberFormatException",
            Builtin::IndexOutOfBoundsException => "java.lang.IndexOutOfBoundsException",
            Builtin::StringIndexOutOfBoundsException => "java.lang.StringIndexOutOfBoundsException",
            Builtin::ArrayIndexOutOfBoundsException => "java.lang.ArrayIndexOutOfBoundsException",
            Builtin::NullPointerException => "java.lang.NullPointerException",
            Builtin::ClassCastException => "java.lang.ClassCastException",
            Builtin::UnsupportedOperationException => "java.lang.UnsupportedOperationException",
            Builtin::NegativeArraySizeException => "java.lang.NegativeArraySizeException",
            Builtin::NoSuchElementException => "java.util.NoSuchElementException",
            Builtin::NotImplementedError => "kotlin.NotImplementedError",
            Builtin::IllegalFormatException => "java.util.IllegalFormatException",
            Builtin::UnknownFormatConversionException => "java.util.UnknownFormatConversionException",
            Builtin::IllegalFormatConversionException => "java.util.IllegalFormatConversionException",
            Builtin::MissingFormatArgumentException => "java.util.MissingFormatArgumentException",
            Builtin::IllegalFormatWidthException => "java.util.IllegalFormatWidthException",
            Builtin::IllegalFormatPrecisionException => "java.util.IllegalFormatPrecisionException",
            Builtin::FormatFlagsConversionMismatchException => "java.util.FormatFlagsConversionMismatchException",
            Builtin::VirtualMachineError => "java.lang.VirtualMachineError",
            Builtin::StackOverflowError => "java.lang.StackOverflowError",
        }
    }

    fn superclass(self) -> (r: Option<Builtin>)
        ensures
            r == self.parent(),
    {
        match self {
            Builtin::Throwable => None,
            Builtin::Exception => Some(Builtin::Throwable),
            Builtin::Error => Some(Builtin::Throwable),
            Builtin::RuntimeException => Some(Builtin::Exception),
            Builtin::ArithmeticException => Some(Builtin::RuntimeException),
            Builtin::IllegalArgumentException => Some(Builtin::RuntimeException),
            Builtin::IllegalStateException => Some(Builtin::RuntimeException),
            Builtin::NumberFormatException => Some(Builtin::IllegalArgumentException),
            Builtin::IndexOutOfBoundsException => Some(Builtin::RuntimeException),
            Builtin::StringIndexOutOfBoundsException => Some(Builtin::IndexOutOfBoundsException),
            Builtin::ArrayIndexOutOfBoundsException => Some(Builtin::IndexOutOfBoundsException),
            Builtin::NullPointerException => Some(Builtin::RuntimeException),
            Builtin::ClassCastException => Some(Builtin::RuntimeException),
            Builtin::UnsupportedOperationException => Some(Builtin::RuntimeException),
            Builtin::NegativeArraySizeException => Some(Builtin::RuntimeException),
            Builtin::NoSuchElementException => Some(Builtin::RuntimeException),
            Builtin::NotImplementedError => Some(Builtin::Error),
            Builtin::IllegalFormatException => Some(Builtin::IllegalArgumentException),
            Builtin::UnknownFormatConversionException => Some(Builtin::IllegalFormatException),
            Builtin::IllegalFormatConversionException => Some(Builtin::IllegalFormatException),
            Builtin::MissingFormatArgumentException => Some(Builtin::IllegalFormatException),
            Builtin::IllegalFormatWidthException => Some(Builtin::IllegalFormatException),
            Builtin::IllegalFormatPrecisionException => Some(Builtin::IllegalFormatException),
            Builtin::FormatFlagsConversionMismatchException => Some(Builtin::IllegalFormatException),
            Builtin::VirtualMachineError => Some(Builtin::Error),
            Builtin::StackOverflowError => Some(Builtin::VirtualMachineError),
        }
    }
}

/// The fully-qualified name of a throwable's simple name, or `None` when the
/// name is not one of the built-in throwables.
pub fn throwable_fqn(simple: &str) -> (r: Option<&'static str>)
    ensures
        match r {
            Some(f) => Builtin::named(simple@) matches Some(b) && f@ == b.qualified_name(),
            None => Builtin::named(simple@) is None,
        },
{
    match Builtin::of_name(simple) {
        Some(b) => Some(b.qualified()),
        None => None,
    }
}

/// Whether one of `line` has the simple name `want`.
pub open spec fn any_named(line: Seq<Builtin>, want: Seq<char>) -> bool {
    exists|i: int| 0 <= i < line.len() && #[trigger] line[i].simple_name() == want
}

/// Whether the class named `thrown` is the class named `want` or below it.
pub open spec fn is_a(thrown: Seq<char>, want: Seq<char>) -> bool {
    thrown == want || (Builtin::named(thrown) matches Some(b) && any_named(b.lineage(), want))
}

/// Whether a thrown class (simple name) is an instance of the caught type
/// `want`: the same class, or reached by walking the superclasses.
pub fn throwable_is_a(thrown: &str, want: &str) -> (r: bool)
    ensures
        r == is_a(thrown@, want@),
{
    if same(thrown, want) {
        return true;
    }
    let mut cur: Builtin = match Builtin::of_name(thrown) {
        Some(b) => b,
        None => {
            return false;
        },
    };
    let ghost whole = cur.lineage();
    let ghost mut gone: int = 0;
    loop
        invariant
            thrown@ != want@,
            Builtin::named(thrown@) matches Some(b) && whole == b.lineage(),
            0 <= gone < whole.len(),
            cur.lineage() == whole.skip(gone),
            forall|i: int| 0 <= i < gone ==> #[trigger] whole[i].simple_name() != want@,
        decreases cur.depth(),
    {
        assert(whole[gone] == whole.skip(gone)[0]);
        if same(cur.simple(), want) {
            return true;
        }
        match cur.superclass() {
            Some(p) => {
                assert(whole.skip(gone).skip(1) =~= whole.skip(gone + 1));
                assert((seq![cur] + p.lineage()).skip(1) =~= p.lineage());
                assert(p.lineage().len() > 0);
                cur = p;
                proof {
                    gone = gone + 1;
                }
            },
            None => {
                return false;
            },
        }
    }
}

/// The built-in throwable ancestry of `simple`, nearest first and including
/// `simple` itself (`"IllegalStateException"` → `["IllegalStateException",
/// "RuntimeException", "Exception", "Throwable"]`); empty for a name that is no
/// built-in throwable.
pub fn throwable_ancestry(simple: &str) -> (out: Vec<&'static str>)
    ensures
        match Builtin::named(simple@) {
            Some(b) => {
                &&& out@.len() == b.lineage().len()
                &&& forall|i: int|
                    0 <= i < out@.len() ==> (#[trigger] out@[i])@ == b.lineage()[i].simple_name()
            },
            None => out@.len() == 0,
        },
{
    let mut out: Vec<&'static str> = Vec::new();
    let mut cur: Builtin = match Builtin::of_name(simple) {
        Some(b) => b,
        None => {
            return out;
        },
    };
    let ghost whole = cur.lineage();
    loop
        invariant
            Builtin::named(simple@) matches Some(b) && whole == b.lineage(),
            out@.len() < whole.len(),
            cur.lineage() == whole.skip(out@.len() as int),
            forall|i: int| 0 <= i < out@.len() ==> (#[trigger] out@[i])@ == whole[i].simple_name(),
        decreases cur.depth(),
    {
        let ghost gone = out@.len() as int;
        assert(whole[gone] == whole.skip(gone)[0]);
        out.push(cur.simple());
        match cur.superclass() {
            Some(p) => {
                assert(whole.skip(gone).skip(1) =~= whole.skip(gone + 1));
                assert((seq![cur] + p.lineage()).skip(1) =~= p.lineage());
                assert(p.lineage().len() > 0);
                cur = p;
            },
            None => {
                assert(whole.skip(gone).len() == 1);
                return out;
            },
        }
    }
}

/// Every built-in throwable is a `Throwable`, and its lineage ends there.
pub proof fn law_every_lineage_ends_in_throwable(b: Builtin)
    ensures
        b.lineage().len() == b.depth() + 1,
        b.lineage().last() == Builtin::Throwable,
        b.lineage()[0] == b,
    decreases b.depth(),
{
    match b.parent() {
        Some(p) => {
            law_every_lineage_ends_in_throwable(p);
        },
        None => {},
    }
}

/// What lies above a class of the lineage lies in the lineage: being below a
/// class is transitive.
pub proof fn law_lineage_is_transitive(b: Builtin, i: int)
    requires
        0 <= i < b.lineage().len(),
    ensures
        b.lineage()[i].lineage() == b.lineage().skip(i),
    decreases b.depth(),
{
    if i == 0 {
        law_every_lineage_ends_in_throwable(b);
        assert(b.lineage().skip(0) =~= b.lineage());
    } else {
        match b.parent() {
            Some(p) => {
                law_lineage_is_transitive(p, i - 1);
                assert(b.lineage().skip(i) =~= p.lineage().skip(i - 1));
            },
            None => {},
        }
    }
}

/// `catch (e: Exception)` does not claim an `Error`: no class below `Error` has
/// `Exception` in its lineage.
pub proof fn law_errors_are_no_exceptions(b: Builtin)
    requires
        b.lineage().contains(Builtin::Error),
    ensures
        !b.lineage().contains(Builtin::Exception),
    decreases b.depth(),
{
    match b.parent() {
        Some(p) => {
            let l = b.lineage();
            let i = choose|i: int| 0 <= i < l.len() && l[i] == Builtin::Error;
            if i > 0 {
                assert(p.lineage()[i - 1] == Builtin::Error);
                law_errors_are_no_exceptions(p);
                if l.contains(Builtin::Exception) {
                    let j = choose|j: int| 0 <= j < l.len() && l[j] == Builtin::Exception;
                    if j > 0 {
                        assert(p.lineage()[j - 1] == Builtin::Exception);
                    } else {
                        reveal_with_fuel(Builtin::lineage, 3);
                    }
                }
            } else {
                reveal_with_fuel(Builtin::lineage, 3);
            }
        },
        None => {},
    }
}

} // verus!
