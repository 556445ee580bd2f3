//! What a `catch` may rely on: the built-in throwables are the classes of the JVM.
use crate::throwable::Builtin;
use vstd::prelude::*;

verus! {

use crate::throwable::{is_a, law_every_lineage_ends_in_throwable};

proof fn lemma_every_class_is_found_by_its_name(b: Builtin)
    ensures
        Builtin::named(b.simple_name()) == Some(b),
{
    reveal_strlit("Throwable");
    reveal_strlit("Exception");
    reveal_strlit("Error");
    reveal_strlit("RuntimeException");
    reveal_strlit("ArithmeticException");
    reveal_strlit("IllegalArgumentException");
    reveal_strlit("IllegalStateException");
    reveal_strlit("NumberFormatException");
    reveal_strlit("IndexOutOfBoundsException");
    reveal_strlit("StringIndexOutOfBoundsException");
    reveal_strlit("ArrayIndexOutOfBoundsException");
    reveal_strlit("NullPointerException");
    reveal_strlit("ClassCastException");
    reveal_strlit("UnsupportedOperationException");
    reveal_strlit("NegativeArraySizeException");
    reveal_strlit("NoSuchElementException");
    reveal_strlit("NotImplementedError");
    reveal_strlit("IllegalFormatException");
    reveal_strlit("UnknownFormatConversionException");
    reveal_strlit("IllegalFormatConversionException");
    reveal_strlit("MissingFormatArgumentException");
    reveal_strlit("IllegalFormatWidthException");
    reveal_strlit("IllegalFormatPrecisionException");
    reveal_strlit("FormatFlagsConversionMismatchException");
    reveal_strlit("VirtualMachineError");
    reveal_strlit("StackOverflowError");
    assert("Error"@.len() == 5);
    assert("Throwable"@.len() == 9 && "Throwable"@[0] == 'T');
    assert("Exception"@.len() == 9 && "Exception"@[0] == 'E');
    assert("RuntimeException"@.len() == 16);
    assert("ClassCastException"@.len() == 18 && "ClassCastException"@[0] == 'C');
    assert("StackOverflowError"@.len() == 18 && "StackOverflowError"@[0] == 'S');
    assert("ArithmeticException"@.len() == 19 && "ArithmeticException"@[0] == 'A');
    assert("NotImplementedError"@.len() == 19 && "NotImplementedError"@[0] == 'N');
    assert("VirtualMachineError"@.len() == 19 && "VirtualMachineError"@[0] == 'V');
    assert("NullPointerException"@.len() == 20);
    assert("IllegalStateException"@.len() == 21 && "IllegalStateException"@[0] == 'I');
    assert("NumberFormatException"@.len() == 21 && "NumberFormatException"@[0] == 'N');
    assert("NoSuchElementException"@.len() == 22 && "NoSuchElementException"@[0] == 'N');
    assert("IllegalFormatException"@.len() == 22 && "IllegalFormatException"@[0] == 'I');
    assert("IllegalArgumentException"@.len() == 24);
    assert("IndexOutOfBoundsException"@.len() == 25);
    assert("NegativeArraySizeException"@.len() == 26);
    assert("IllegalFormatWidthException"@.len() == 27);
    assert("UnsupportedOperationException"@.len() == 29);
    assert("ArrayIndexOutOfBoundsException"@.len() == 30 && "ArrayIndexOutOfBoundsException"@[0] == 'A');
    assert("MissingFormatArgumentException"@.len() == 30 && "MissingFormatArgumentException"@[0] == 'M');
    assert("StringIndexOutOfBoundsException"@.len() == 31 && "StringIndexOutOfBoundsException"@[0] == 'S');
    assert("IllegalFormatPrecisionException"@.len() == 31 && "IllegalFormatPrecisionException"@[0] == 'I');
    assert("UnknownFormatConversionException"@.len() == 32 && "UnknownFormatConversionException"@[0] == 'U');
    assert("IllegalFormatConversionException"@.len() == 32 && "IllegalFormatConversionException"@[0] == 'I');
    assert("FormatFlagsConversionMismatchException"@.len() == 38);
}

/// The simple names of the classes that a class is an instance of, nearest first;
/// none for a name that is no built-in throwable.
pub open spec fn ancestry(simple: Seq<char>) -> Seq<Seq<char>> {
    match Builtin::named(simple) {
        Some(b) => b.lineage().map_values(|c: Builtin| c.simple_name()),
        None => Seq::empty(),
    }
}

/// Whether `sub` is declared directly below `base`: what catches `base` catches
/// `sub`, and besides only its own name does.
pub open spec fn extends(sub: Seq<char>, base: Seq<char>) -> bool {
    &&& ancestry(sub) == seq![sub] + ancestry(base)
    &&& ancestry(base).len() > 0
    &&& forall|want: Seq<char>|
        #[trigger] is_a(sub, want) <==> want == sub || is_a(base, want)
}

proof fn lemma_extends(b: Builtin, base: Builtin)
    requires
        b.parent() == Some(base),
    ensures
        extends(b.simple_name(), base.simple_name()),
{
    lemma_every_class_is_found_by_its_name(b);
    lemma_every_class_is_found_by_its_name(base);
    let line = b.lineage();
    let above = base.lineage();
    assert(line =~= seq![b] + above);
    assert(ancestry(b.simple_name()) =~= seq![b.simple_name()] + ancestry(base.simple_name()));
    assert forall|want: Seq<char>| #[trigger]
        is_a(b.simple_name(), want) <==> want == b.simple_name() || is_a(base.simple_name(), want) by {
        if is_a(b.simple_name(), want) && want != b.simple_name() {
            let i = choose|i: int|
                0 <= i < line.len() && #[trigger] line[i].simple_name() == want;
            assert(above[i - 1].simple_name() == want);
        }
        if is_a(base.simple_name(), want) {
            if base.simple_name() == want {
                assert(above[0] == base);
                assert(line[1].simple_name() == want);
            } else {
                let i = choose|i: int|
                    0 <= i < above.len() && #[trigger] above[i].simple_name() == want;
                assert(line[i + 1].simple_name() == want);
            }
        }
    }
}


/// `Throwable` is at the top, with `Exception` and `Error` below it.
pub proof fn law_roots_of_the_throwables()
    ensures
        ancestry("Throwable"@) == seq!["Throwable"@],
        forall|want: Seq<char>| #[trigger] is_a("Throwable"@, want) <==> want == "Throwable"@,
        extends("Exception"@, "Throwable"@),
        extends("Error"@, "Throwable"@),
{
    lemma_every_class_is_found_by_its_name(Builtin::Throwable);
    assert(ancestry("Throwable"@) =~= seq!["Throwable"@]);
    assert(Builtin::Throwable.lineage()[0].simple_name() == "Throwable"@);
    lemma_extends(Builtin::Exception, Builtin::Throwable);
    lemma_extends(Builtin::Error, Builtin::Throwable);
}

/// What is declared below `Exception` and below `RuntimeException`.
pub proof fn law_runtime_exceptions()
    ensures
        extends("RuntimeException"@, "Exception"@),
        extends("ArithmeticException"@, "RuntimeException"@),
        extends("IllegalArgumentException"@, "RuntimeException"@),
        extends("IllegalStateException"@, "RuntimeException"@),
        extends("IndexOutOfBoundsException"@, "RuntimeException"@),
        extends("NullPointerException"@, "RuntimeException"@),
        extends("ClassCastException"@, "RuntimeException"@),
        extends("UnsupportedOperationException"@, "RuntimeException"@),
        extends("NegativeArraySizeException"@, "RuntimeException"@),
        extends("NoSuchElementException"@, "RuntimeException"@),
{
    lemma_extends(Builtin::RuntimeException, Builtin::Exception);
    lemma_extends(Builtin::ArithmeticException, Builtin::RuntimeException);
    lemma_extends(Builtin::IllegalArgumentException, Builtin::RuntimeException);
    lemma_extends(Builtin::IllegalStateException, Builtin::RuntimeException);
    lemma_extends(Builtin::IndexOutOfBoundsException, Builtin::RuntimeException);
    lemma_extends(Builtin::NullPointerException, Builtin::RuntimeException);
    lemma_extends(Builtin::ClassCastException, Builtin::RuntimeException);
    lemma_extends(Builtin::UnsupportedOperationException, Builtin::RuntimeException);
    lemma_extends(Builtin::NegativeArraySizeException, Builtin::RuntimeException);
    lemma_extends(Builtin::NoSuchElementException, Builtin::RuntimeException);
}

/// What is declared below `IllegalArgumentException` and below
/// `IndexOutOfBoundsException`: a text that is no number is an illegal argument, and
/// no illegal state.
pub proof fn law_argument_exceptions()
    ensures
        extends("NumberFormatException"@, "IllegalArgumentException"@),
        extends("IllegalFormatException"@, "IllegalArgumentException"@),
        extends("StringIndexOutOfBoundsException"@, "IndexOutOfBoundsException"@),
        extends("ArrayIndexOutOfBoundsException"@, "IndexOutOfBoundsException"@),
{
    lemma_extends(Builtin::NumberFormatException, Builtin::IllegalArgumentException);
    lemma_extends(Builtin::IllegalFormatException, Builtin::IllegalArgumentException);
    lemma_extends(Builtin::StringIndexOutOfBoundsException, Builtin::IndexOutOfBoundsException);
    lemma_extends(Builtin::ArrayIndexOutOfBoundsException, Builtin::IndexOutOfBoundsException);
}

/// What is declared below `IllegalFormatException`.
pub proof fn law_format_exceptions()
    ensures
        extends("UnknownFormatConversionException"@, "IllegalFormatException"@),
        extends("IllegalFormatConversionException"@, "IllegalFormatException"@),
        extends("MissingFormatArgumentException"@, "IllegalFormatException"@),
        extends("IllegalFormatWidthException"@, "IllegalFormatException"@),
        extends("IllegalFormatPrecisionException"@, "IllegalFormatException"@),
        extends("FormatFlagsConversionMismatchException"@, "IllegalFormatException"@),
{
    lemma_extends(Builtin::UnknownFormatConversionException, Builtin::IllegalFormatException);
    lemma_extends(Builtin::IllegalFormatConversionException, Builtin::IllegalFormatException);
    lemma_extends(Builtin::MissingFormatArgumentException, Builtin::IllegalFormatException);
    lemma_extends(Builtin::IllegalFormatWidthException, Builtin::IllegalFormatException);
    lemma_extends(Builtin::IllegalFormatPrecisionException, Builtin::IllegalFormatException);
    lemma_extends(Builtin::FormatFlagsConversionMismatchException, Builtin::IllegalFormatException);
}

/// What is declared below `Error`.
pub proof fn law_errors()
    ensures
        extends("NotImplementedError"@, "Error"@),
        extends("VirtualMachineError"@, "Error"@),
        extends("StackOverflowError"@, "VirtualMachineError"@),
{
    lemma_extends(Builtin::NotImplementedError, Builtin::Error);
    lemma_extends(Builtin::VirtualMachineError, Builtin::Error);
    lemma_extends(Builtin::StackOverflowError, Builtin::VirtualMachineError);
}

/// A class that is no built-in throwable is caught by its own name alone.
pub proof fn law_other_names_are_themselves(name: Seq<char>, want: Seq<char>)
    requires
        ancestry(name).len() == 0,
    ensures
        is_a(name, want) <==> name == want,
{
    if let Some(b) = Builtin::named(name) {
        assert(b.lineage()[0] == b);
        assert(ancestry(name).len() == b.lineage().len());
    }
}

/// A class is an instance of exactly the classes of its ancestry, which starts with
/// itself and ends with `Throwable`.
pub proof fn law_ancestry_is_what_catches(name: Seq<char>, want: Seq<char>)
    requires
        ancestry(name).len() > 0,
    ensures
        is_a(name, want) <==> ancestry(name).contains(want),
        ancestry(name)[0] == name,
        ancestry(name).last() == "Throwable"@,
    decreases Builtin::named(name)->0.depth(),
{
    let b = Builtin::named(name)->0;
    lemma_named_is_its_name(name);
    law_every_lineage_ends_in_throwable(b);
    let line = b.lineage();
    let names = ancestry(name);
    assert forall|i: int| 0 <= i < line.len() implies #[trigger] names[i] == line[i].simple_name() by {}
    if is_a(name, want) {
        if name == want {
            assert(names[0] == want);
        } else {
            let i = choose|i: int| 0 <= i < line.len() && #[trigger] line[i].simple_name() == want;
            assert(names[i] == want);
        }
    }
    if names.contains(want) {
        let i = choose|i: int| 0 <= i < names.len() && names[i] == want;
        assert(line[i].simple_name() == want);
    }
}

proof fn lemma_named_is_its_name(name: Seq<char>)
    ensures
        Builtin::named(name) matches Some(b) ==> b.simple_name() == name,
{
}


/// The qualified name of a class is its simple name behind its package: the
/// exceptions of formatting and a missing element are of `java.util`, what is not
/// implemented is of `kotlin`, and the others are of `java.lang`.
pub proof fn law_qualified_names(b: Builtin)
    ensures
        b.qualified_name() == (match b {
            Builtin::NoSuchElementException => "java.util."@,
            Builtin::IllegalFormatException => "java.util."@,
            Builtin::UnknownFormatConversionException => "java.util."@,
            Builtin::IllegalFormatConversionException => "java.util."@,
            Builtin::MissingFormatArgumentException => "java.util."@,
            Builtin::IllegalFormatWidthException => "java.util."@,
            Builtin::IllegalFormatPrecisionException => "java.util."@,
            Builtin::FormatFlagsConversionMismatchException => "java.util."@,
            Builtin::NotImplementedError => "kotlin."@,
            _ => "java.lang."@,
        }) + b.simple_name(),
{
    reveal_strlit("java.lang.");
    reveal_strlit("java.util.");
    reveal_strlit("kotlin.");
    match b {
        Builtin::Throwable => {
            reveal_strlit("Throwable");
            reveal_strlit("java.lang.Throwable");
            assert("java.lang.Throwable"@ =~= "java.lang."@ + "Throwable"@);
        },
        Builtin::Exception => {
            reveal_strlit("Exception");
            reveal_strlit("java.lang.Exception");
            assert("java.lang.Exception"@ =~= "java.lang."@ + "Exception"@);
        },
        Builtin::Error => {
            reveal_strlit("Error");
            reveal_strlit("java.lang.Error");
            assert("java.lang.Error"@ =~= "java.lang."@ + "Error"@);
        },
        Builtin::RuntimeException => {
            reveal_strlit("RuntimeException");
            reveal_strlit("java.lang.RuntimeException");
            assert("java.lang.RuntimeException"@ =~= "java.lang."@ + "RuntimeException"@);
        },
        Builtin::ArithmeticException => {
            reveal_strlit("ArithmeticException");
            reveal_strlit("java.lang.ArithmeticException");
            assert("java.lang.ArithmeticException"@ =~= "java.lang."@ + "ArithmeticException"@);
        },
        Builtin::IllegalArgumentException => {
            reveal_strlit("IllegalArgumentException");
            reveal_strlit("java.lang.IllegalArgumentException");
            assert("java.lang.IllegalArgumentException"@ =~= "java.lang."@ + "IllegalArgumentException"@);
        },
        Builtin::IllegalStateException => {
            reveal_strlit("IllegalStateException");
            reveal_strlit("java.lang.IllegalStateException");
            assert("java.lang.IllegalStateException"@ =~= "java.lang."@ + "IllegalStateException"@);
        },
        Builtin::NumberFormatException => {
            reveal_strlit("NumberFormatException");
            reveal_strlit("java.lang.NumberFormatException");
            assert("java.lang.NumberFormatException"@ =~= "java.lang."@ + "NumberFormatException"@);
        },
        Builtin::IndexOutOfBoundsException => {
            reveal_strlit("IndexOutOfBoundsException");
            reveal_strlit("java.lang.IndexOutOfBoundsException");
            assert("java.lang.IndexOutOfBoundsException"@ =~= "java.lang."@ + "IndexOutOfBoundsException"@);
        },
        Builtin::StringIndexOutOfBoundsException => {
            reveal_strlit("StringIndexOutOfBoundsException");
            reveal_strlit("java.lang.StringIndexOutOfBoundsException");
            assert("java.lang.StringIndexOutOfBoundsException"@ =~= "java.lang."@ + "StringIndexOutOfBoundsException"@);
        },
        Builtin::ArrayIndexOutOfBoundsException => {
            reveal_strlit("ArrayIndexOutOfBoundsException");
            reveal_strlit("java.lang.ArrayIndexOutOfBoundsException");
            assert("java.lang.ArrayIndexOutOfBoundsException"@ =~= "java.lang."@ + "ArrayIndexOutOfBoundsException"@);
        },
        Builtin::NullPointerException => {
            reveal_strlit("NullPointerException");
            reveal_strlit("java.lang.NullPointerException");
            assert("java.lang.NullPointerException"@ =~= "java.lang."@ + "NullPointerException"@);
        },
        Builtin::ClassCastException => {
            reveal_strlit("ClassCastException");
            reveal_strlit("java.lang.ClassCastException");
            assert("java.lang.ClassCastException"@ =~= "java.lang."@ + "ClassCastException"@);
        },
        Builtin::UnsupportedOperationException => {
            reveal_strlit("UnsupportedOperationException");
            reveal_strlit("java.lang.UnsupportedOperationException");
            assert("java.lang.UnsupportedOperationException"@ =~= "java.lang."@ + "UnsupportedOperationException"@);
        },
        Builtin::NegativeArraySizeException => {
            reveal_strlit("NegativeArraySizeException");
            reveal_strlit("java.lang.NegativeArraySizeException");
            assert("java.lang.NegativeArraySizeException"@ =~= "java.lang."@ + "NegativeArraySizeException"@);
        },
        Builtin::NoSuchElementException => {
            reveal_strlit("NoSuchElementException");
            reveal_strlit("java.util.NoSuchElementException");
            assert("java.util.NoSuchElementException"@ =~= "java.util."@ + "NoSuchElementException"@);
        },
        Builtin::NotImplementedError => {
            reveal_strlit("NotImplementedError");
            reveal_strlit("kotlin.NotImplementedError");
            assert("kotlin.NotImplementedError"@ =~= "kotlin."@ + "NotImplementedError"@);
        },
        Builtin::IllegalFormatException => {
            reveal_strlit("IllegalFormatException");
            reveal_strlit("java.util.IllegalFormatException");
            assert("java.util.IllegalFormatException"@ =~= "java.util."@ + "IllegalFormatException"@);
        },
        Builtin::UnknownFormatConversionException => {
            reveal_strlit("UnknownFormatConversionException");
            reveal_strlit("java.util.UnknownFormatConversionException");
            assert("java.util.UnknownFormatConversionException"@ =~= "java.util."@ + "UnknownFormatConversionException"@);
        },
        Builtin::IllegalFormatConversionException => {
            reveal_strlit("IllegalFormatConversionException");
            reveal_strlit("java.util.IllegalFormatConversionException");
            assert("java.util.IllegalFormatConversionException"@ =~= "java.util."@ + "IllegalFormatConversionException"@);
        },
        Builtin::MissingFormatArgumentException => {
            reveal_strlit("MissingFormatArgumentException");
            reveal_strlit("java.util.MissingFormatArgumentException");
            assert("java.util.MissingFormatArgumentException"@ =~= "java.util."@ + "MissingFormatArgumentException"@);
        },
        Builtin::IllegalFormatWidthException => {
            reveal_strlit("IllegalFormatWidthException");
            reveal_strlit("java.util.IllegalFormatWidthException");
            assert("java.util.IllegalFormatWidthException"@ =~= "java.util."@ + "IllegalFormatWidthException"@);
        },
        Builtin::IllegalFormatPrecisionException => {
            reveal_strlit("IllegalFormatPrecisionException");
            reveal_strlit("java.util.IllegalFormatPrecisionException");
            assert("java.util.IllegalFormatPrecisionException"@ =~= "java.util."@ + "IllegalFormatPrecisionException"@);
        },
        Builtin::FormatFlagsConversionMismatchException => {
            reveal_strlit("FormatFlagsConversionMismatchException");
            reveal_strlit("java.util.FormatFlagsConversionMismatchException");
            assert("java.util.FormatFlagsConversionMismatchException"@ =~= "java.util."@ + "FormatFlagsConversionMismatchException"@);
        },
        Builtin::VirtualMachineError => {
            reveal_strlit("VirtualMachineError");
            reveal_strlit("java.lang.VirtualMachineError");
            assert("java.lang.VirtualMachineError"@ =~= "java.lang."@ + "VirtualMachineError"@);
        },
        Builtin::StackOverflowError => {
            reveal_strlit("StackOverflowError");
            reveal_strlit("java.lang.StackOverflowError");
            assert("java.lang.StackOverflowError"@ =~= "java.lang."@ + "StackOverflowError"@);
        },
    }
}

} // verus!
