//! The language reference that completion and hover draw on.
//!
//! Each chapter is a list of names and a text: what there is to say of each name, in
//! the same order, with a record separator between them. Of a name there is a
//! signature, a description and an example, with a unit separator between them. A description says what this runtime does; where
//! that differs from Kotlin proper, it says so.
use crate::search::split;
use crate::text::chars_of_str;
use vstd::prelude::*;

verus! {

use crate::instances::piece;
use crate::search::{pieces, texts_view};
use crate::throwable::Builtin;

/// The names of the chapter "Keywords & Declarations".
pub open spec fn keywords_declarations_names() -> Seq<Seq<char>> {
    seq![
        "fun"@,
        "val"@,
        "var"@,
        "if"@,
        "else"@,
        "while"@,
        "for"@,
        "in"@,
        "return"@,
        "until"@,
        "downTo"@,
        "step"@,
        "when"@,
        "is"@,
        "class"@,
        "interface"@,
        "object"@,
        "data"@,
        "open"@,
        "override"@,
        "abstract"@,
        "sealed"@,
        "final"@,
        "private"@,
        "inner"@,
        "super"@,
        "this"@,
        "it"@,
        "break"@,
        "continue"@,
        "try"@,
        "catch"@,
        "finally"@,
        "throw"@,
        "null"@,
        "true"@,
        "false"@,
        "import"@,
        "package"@,
        "as"@,
        "rust"@,
    ]
}

/// The texts of the chapter "Keywords & Declarations".
pub const KEYWORDS_DECLARATIONS: &'static str = "fun name(p: T, …): R { … }\nfun name(p: T, …): R = expr\u{1f}\
    Declares a function. Execution enters `fun main`, with or without an `args: Array<String>` parameter. A `= expr` body is a single-expression function. Only `fun`, `class`, `object` and `interface` may appear at the top level — kotlinrs has no top-level `val`/`var`.\u{1f}\
    fun cube(n: Int): Int = n * n * n\nfun main() { println(cube(3)) }   // 27\u{1e}\
    val name: T = expr\u{1f}\
    Declares a read-only binding. The type annotation is optional and inferred from the initializer when it is absent.\u{1f}\
    val x = 41\nprintln(x + 1)   // 42\u{1e}\
    var name: T = expr\u{1f}\
    Declares a reassignable binding. The compound assignments (`+=`, `-=`, `*=`, `/=`, `%=`) and `++`/`--` all write through a `var`.\u{1f}\
    var i = 0\ni += 1\nprintln(i)   // 1\u{1e}\
    if (cond) { … } else { … }\u{1f}\
    Conditional branch. It is also an expression whose value is the last statement of the branch taken; an `if` with no `else` that falls through evaluates to `null`.\u{1f}\
    val m = if (3 > 2) 3 else 2\nprintln(m)   // 3\u{1e}\
    if (cond) { … } else { … }\nwhen { … else -> … }\u{1f}\
    The fallback branch of an `if`, and the catch-all arm of a `when`. In a `when` it is terminal: arms written after it are unreachable and are not compiled at all.\u{1f}\
    println(if (4 % 2 == 0) \"even\" else \"odd\")   // even\u{1e}\
    while (cond) { … }\u{1f}\
    Loops while the condition stays true. kotlinrs has no `do … while`; the post-test loop is not part of the grammar.\u{1f}\
    var i = 0\nwhile (i < 3) i += 1\nprintln(i)   // 3\u{1e}\
    for (v in a..b) { … }\nfor (v in iterable) { … }\u{1f}\
    Iterates a range or an iterable value — a `List`, `Set`, `Array`, range, or `String` (by UTF-16 code unit). A syntactic range header compiles to a counted loop the JIT can trace; every other receiver goes through the host iterator. A `Map` is not iterable here and faults at run time.\u{1f}\
    for (i in 1..3) print(i)      // 123\nfor (c in \"ab\") print(c)      // ab\u{1e}\
    for (v in iterable)\nvalue in container\u{1f}\
    Two roles: the `for` header separator, and the membership operator over a range, `List`, `Set`, `Array`, a `Map`'s keys, or a `String`'s substrings. A `when` arm may also read `in a..b`.\u{1f}\
    println(2 in 1..3)                  // true\nprintln(\"b\" in \"abc\")               // true\nprintln(\"a\" in mapOf(\"a\" to 1))     // true\u{1e}\
    return\nreturn expr\u{1f}\
    Returns from the enclosing function. A bare `return` yields `Unit`. There is no labeled `return@label` for returning out of a lambda.\u{1f}\
    fun answer(): Int { return 42 }\nfun main() { println(answer()) }\u{1e}\
    a until b\u{1f}\
    Half-open ascending range: `a until b` includes `a` and excludes `b`. An infix function, so it binds looser than `..` and than arithmetic.\u{1f}\
    for (i in 0 until 3) print(i)   // 012\u{1e}\
    a downTo b\u{1f}\
    Descending inclusive range, stepping by -1. Printing one shows the progression form, `a downTo b step 1`.\u{1f}\
    for (i in 3 downTo 1) print(i)   // 321\u{1e}\
    range step n\u{1f}\
    Re-steps a range into a progression. Its left operand is any range expression, not just a literal one, because `step` is an infix function at a looser precedence than `..`. A non-positive `n` raises `IllegalArgumentException`.\u{1f}\
    for (i in 0..10 step 5) print(i)   // 0510\nprintln(1..10 step 3)              // 1..10 step 3\u{1e}\
    when (subject) { cond -> … else -> … }\nwhen { boolExpr -> … }\u{1f}\
    Multi-way branch, statement or expression. The subject form tests each arm against the subject with `==`, `in`, or `is`; the subjectless form tests each arm as a Boolean. Arms are tried top to bottom and the first match wins; several conditions may share one arm, comma-separated. With no matching arm and no `else` the value is `null`.\u{1f}\
    val n = 5\nprintln(when (n) { 1 -> \"one\"; in 2..9 -> \"few\"; else -> \"many\" })   // few\u{1e}\
    value is Type\nvalue !is Type\u{1f}\
    Runtime type check, in a `when` arm or in ordinary expression position. It compares the receiver's runtime class tag, so it recognizes the built-in kinds (`Int`, `String`, `List`, …) and user classes including inherited supertypes. A trailing `?` on the type and a type-argument list are both accepted and ignored.\u{1f}\
    val x: Any = \"s\"\nprintln(when (x) { is String -> \"str\"; is Int -> \"int\"; else -> \"?\" })   // str\u{1e}\
    class Name(val p: T, …) : Super(args), Iface { … }\u{1f}\
    Declares a class. Only the primary constructor exists — there are no secondary constructors and no `init` block. A `val`/`var` primary-constructor parameter becomes a stored property; a plain parameter does not. The supertype list may name one class and any number of interfaces.\u{1f}\
    open class Animal(val name: String)\nclass Dog(n: String) : Animal(n)\nfun main() { println(Dog(\"rex\").name) }   // rex\u{1e}\
    interface Name { fun m(): T; fun d(): T = expr }\u{1f}\
    Declares an interface. A member with no body is abstract; one with a body is a default implementation an implementor inherits. Interfaces cannot be instantiated. A soft keyword — `interface` is still usable as an ordinary identifier elsewhere.\u{1f}\
    interface Greeter {\n    fun greet(): String\n    fun loud(): String = greet().uppercase()\n}\nclass En : Greeter { override fun greet(): String = \"hi\" }\nfun main() { println(En().loud()) }   // HI\u{1e}\
    object Name { … }\u{1f}\
    Declares a singleton, constructed once before `main` runs and reachable by its own name. kotlinrs has no `companion object` and no anonymous `object : T { }` expression.\u{1f}\
    object Counter { var n = 0 }\nfun main() { Counter.n = 5; println(Counter.n) }   // 5\u{1e}\
    data class Name(val p: T, …)\u{1f}\
    Marks a class as a data class, which generates `equals`, `hashCode`, `toString`, `copy` and `componentN` over the primary-constructor properties only. An inherited field is carried but is not part of the comparison and is skipped by `componentN`. A soft keyword — `x.data` is still a legal property read.\u{1f}\
    data class Pt(val x: Int, val y: Int)\nfun main() { println(Pt(1, 2)) }   // Pt(x=1, y=2)\u{1e}\
    open class Name\nopen fun m(): T\u{1f}\
    Marks a class as extendable or a member as overridable, and it is enforced. Inheriting from a class that is not `open` is rejected with `B is final, so it cannot be inherited from`, and overriding a member that is not `open` with `` `f` in B is final and cannot be overridden ``.\u{1f}\
    open class Base { open fun f(): Int = 1 }\nclass D : Base() { override fun f(): Int = 2 }\nfun main() { println(D().f()) }   // 2\u{1e}\
    override fun m(): T { … }\u{1f}\
    Replaces a supertype's member, and it is required — redeclaring a supertype member without it is rejected with `` `f` hides a member of supertype B and needs an `override` modifier ``, and writing it on a member that overrides nothing is rejected too. Dispatch is by the receiver's runtime class, resolved at the call site against every instantiable implementor; a single candidate compiles to a direct call with no test.\u{1f}\
    open class Base { open fun f(): Int = 1 }\nclass D : Base() { override fun f(): Int = 2 }\nfun main() { val b: Base = D(); println(b.f()) }   // 2\u{1e}\
    abstract class Name\nabstract fun m(): T\u{1f}\
    Declares a class that cannot be constructed, or a member with no body that subtypes must supply. Constructing one is a compile error: `cannot construct abstract class Name`.\u{1f}\
    abstract class Shape { abstract fun area(): Double }\nclass Sq(val s: Double) : Shape() { override fun area(): Double = s * s }\nfun main() { println(Sq(3.0).area()) }   // 9.0\u{1e}\
    sealed class Name\u{1f}\
    Declares a sealed class — abstract, and conventionally the root of a closed set of subtypes matched by `is` arms. kotlinrs treats it exactly as `abstract`: it does not check that a `when` over the subtypes is exhaustive, so an unmatched subject still falls through to `null`.\u{1f}\
    sealed class Expr\ndata class Num(val v: Int) : Expr()\nfun main() { val e: Expr = Num(3); println(when (e) { is Num -> e.v; else -> 0 }) }   // 3\u{1e}\
    final fun m(): T\u{1f}\
    Accepted and discarded — it restates the default. A class or member that is not marked `open` is already final, and the compiler enforces that, so writing `final` changes nothing.\u{1f}\
    open class B { open fun f(): Int = 1 }\nclass C : B() { final override fun f(): Int = 2 }\nfun main() { println(C().f()) }   // 2\u{1e}\
    private fun m()\nprivate class C\u{1f}\
    A visibility modifier. `public`, `private`, `internal` and `protected` are all parsed and then discarded — a single-file program has no visibility boundary to enforce, so every declaration is reachable from every other one.\u{1f}\
    private class Box(val v: Int)\nfun main() { println(Box(7).v) }   // 7\u{1e}\
    inner class C\u{1f}\
    Accepted and discarded. kotlinrs has no nested classes at all — every `class` is top-level — so the modifier never changes what is compiled.\u{1f}\
    class Holder(val v: Int)\nfun main() { println(Holder(1).v) }   // 1\u{1e}\
    super.m(args)\nsuper<T>.m(args)\u{1f}\
    Calls the supertype's implementation rather than the overriding one, resolved statically. The unqualified form walks the linearized ancestry for the nearest supertype that implements the member; `super<T>` names the supertype explicitly, and `T` must be a direct one.\u{1f}\
    open class B { open fun f(): Int = 1 }\nclass D : B() { override fun f(): Int = super.f() + 1 }\nfun main() { println(D().f()) }   // 2\u{1e}\
    this\nthis.property\u{1f}\
    The receiver inside a class method or a property initializer. A bare name that matches a property of the enclosing class resolves to `this.name` implicitly, so writing `this` is optional. There is no `this@Label`.\u{1f}\
    class P(val x: Int) { fun twice(): Int = this.x * 2 }\nfun main() { println(P(4).twice()) }   // 8\u{1e}\
    { it }\u{1f}\
    The implicit single parameter of a lambda written with no parameter list. A lambda with an explicit list (`{ a, b -> … }`) has no `it`. Its type is unknown to the compiler, so `it + 1` lowers to a native op that stays on the fast path when the value turns out to be a number and is handed back to the runtime when it turns out to be a `Char` — which is what keeps `{ it + 1 }` over a `List<Char>` correct.\u{1f}\
    println(listOf(1, 2, 3).map { it * 2 })   // [2, 4, 6]\u{1e}\
    break\nbreak@label\u{1f}\
    Exits the enclosing loop. `break@label` exits the loop carrying that label, which is written `label@` before the `for`/`while`.\u{1f}\
    for (i in 1..9) { if (i == 3) break; print(i) }   // 12\u{1e}\
    continue\ncontinue@label\u{1f}\
    Skips to the enclosing loop's next iteration. `continue@label` targets a labeled loop, which is how an inner loop advances an outer one.\u{1f}\
    outer@ for (i in 1..2) { for (j in 1..3) { if (j == 2) continue@outer; print(\"$i$j\") } }   // 1121\u{1e}\
    try { … } catch (e: T) { … } finally { … }\u{1f}\
    Guarded block, and an expression: its value is the last statement of the body, or of the handler that ran. While an exception is unwinding, `println`/`print` are suppressed so nothing is emitted between the `throw` and its handler.\u{1f}\
    val n = try { 1 / 0 } catch (e: ArithmeticException) { -1 }\nprintln(n)   // -1\u{1e}\
    catch (name: Type) { … }\u{1f}\
    A handler arm. The first arm whose type the in-flight throwable is an instance of wins, walking the modelled JVM parent chain — so `catch (e: Exception)` catches an `IllegalArgumentException`. `catch (e: Throwable)` catches anything.\u{1f}\
    try { \"x\".substring(9) } catch (e: Exception) { println(e.message) }\u{1e}\
    finally { … }\u{1f}\
    Cleanup block, run on the normal and the exceptional path alike. Its own value is discarded — the `try` expression's value still comes from the body or the handler.\u{1f}\
    try { println(\"work\") } finally { println(\"done\") }\u{1e}\
    throw expr\u{1f}\
    Raises a throwable. Kotlin types it `Nothing`, so it is an expression and may appear on the right of `?:` or as the body of a `when` arm. An uncaught throw prints `Exception in thread \"main\" <fqn>: <message>` and exits non-zero.\u{1f}\
    val x: Int? = null\nval v = x ?: throw IllegalStateException(\"missing\")\n// Exception in thread \"main\" java.lang.IllegalStateException: missing\u{1e}\
    null\u{1f}\
    The null reference, carried internally as the VM's undefined value. It prints and interpolates as `null`. Nullability is not checked statically: `T?` is parsed and discarded, so a null only makes itself known through `?.`, `?:`, `!!`, or a runtime fault.\u{1f}\
    val x: Int? = null\nprintln(x ?: 0)   // 0\u{1e}\
    true\u{1f}\
    The Boolean true literal. `&&` and `||` short-circuit on it; a lambda predicate is only treated as satisfied when it returns exactly `true` (a `null` or non-Boolean result counts as false).\u{1f}\
    val ok: Boolean = true\nprintln(ok)   // true\u{1e}\
    false\u{1f}\
    The Boolean false literal.\u{1f}\
    val done: Boolean = false\nprintln(!done)   // true\u{1e}\
    import a.b.c\nimport a.b.*\nimport a.b.c as alias\u{1f}\
    Records an import. It matters for exactly one thing: `kotlin.math` names are unresolvable without it, matching Kotlin. A star import opens the whole package; a single-name import opens only that name; an `as` alias *replaces* the original spelling, so after `import kotlin.math.abs as absolute` the name `abs` is no longer in scope.\u{1f}\
    import kotlin.math.*\nfun main() { println(sqrt(9.0)) }   // 3.0\u{1e}\
    package a.b\u{1f}\
    Accepted and discarded. A kotlinrs program is a single file with no package-level name resolution, so the declaration exists only so real Kotlin source parses.\u{1f}\
    package demo\nfun main() { println(\"ok\") }\u{1e}\
    import a.b.c as alias\u{1f}\
    The import-renaming keyword — and only that. kotlinrs has no `as` cast operator and no `as?`: `x as Int` is a parse error. Use `is` for a runtime type check.\u{1f}\
    import kotlin.math.abs as absolute\nfun main() { println(absolute(-4)) }   // 4\u{1e}\
    rust { … }\u{1f}\
    An inline Rust FFI block, recognized before lexing and rewritten in place into a `__rust_compile(\"<base64>\", line)` call. The block must sit inside a function body. Its `#[no_mangle] pub extern` exports become callable barewords from Kotlin, dispatched by name at run time.\u{1f}\
    fun main() {\n    rust { #[no_mangle] pub extern \"C\" fn twice(n: i64) -> i64 { n * 2 } }\n    println(twice(21))   // 42\n}";

/// The names of the chapter "Operators".
pub open spec fn operators_names() -> Seq<Seq<char>> {
    seq![
        "+"@,
        "-"@,
        "*"@,
        "/"@,
        "%"@,
        "="@,
        "+="@,
        "-="@,
        "*="@,
        "/="@,
        "%="@,
        "++"@,
        "--"@,
        "=="@,
        "!="@,
        "<"@,
        ">"@,
        "<="@,
        ">="@,
        "&&"@,
        "||"@,
        "!"@,
        ".."@,
        "?."@,
        "?:"@,
        "!!"@,
        "?"@,
        "[]"@,
        "[]="@,
        "->"@,
        "@"@,
        "$"@,
        "to"@,
        "!in"@,
        "!is"@,
        "."@,
        ":"@,
        ";"@,
    ]
}

/// The texts of the chapter "Operators".
pub const OPERATORS: &'static str = "a + b\u{1f}\
    Addition on numbers, concatenation on `String`, and code-unit displacement on `Char` (`'A' + 1` is `'B'`). Two `Int` operands wrap on overflow; a `Double` operand makes the result `Double`. Its method spelling is `plus`.\u{1f}\
    println(1 + 2)          // 3\nprintln(\"a\" + \"b\")      // ab\nprintln('A' + 1)        // B\u{1e}\
    a - b\n-a\u{1f}\
    Subtraction, and unary negation. `Char - Char` is the `Int` distance between the code units; `Char - Int` is a `Char`. Its method spelling is `minus`.\u{1f}\
    println(5 - 2)          // 3\nprintln('c' - 'a')      // 2\u{1e}\
    a * b\u{1f}\
    Multiplication, wrapping for two `Int` operands. Its method spelling is `times`. There is no `String * Int` repeat operator — use `String.repeat`.\u{1f}\
    println(6 * 7)   // 42\u{1e}\
    a / b\u{1f}\
    Division. Two integral operands divide truncating toward zero; a `Double` operand switches the whole expression to IEEE-754 division. Integer division by zero raises `ArithmeticException: / by zero`; `Double` division by zero yields `Infinity`.\u{1f}\
    println(7 / 2)       // 3\nprintln(7 / 2.0)     // 3.5\u{1e}\
    a % b\u{1f}\
    Remainder, taking the dividend's sign for integers (`-7 % 2` is `-1`). Integer `%` by zero raises `ArithmeticException`. Its method spelling is `rem`.\u{1f}\
    println(7 % 3)    // 1\nprintln(-7 % 3)   // -1\u{1e}\
    name = value\nrecv.prop = value\nrecv[i] = value\u{1f}\
    Assignment to a `var`, to a property, or to an indexed slot. An indexed write into a `Map` inserts the key when it is absent; into a `List` or `Array` it is bounds-checked and raises `IndexOutOfBoundsException` past the end.\u{1f}\
    var i = 1\ni = 2\nval m = mutableMapOf<String, Int>()\nm[\"a\"] = 1\nprintln(\"$i ${m[\"a\"]}\")   // 2 1\u{1e}\
    target += value\u{1f}\
    Compound add-assign. It works on a `var`, a property, and an indexed slot alike, and reuses the `+` semantics — so it concatenates on a `String` target.\u{1f}\
    var s = \"a\"\ns += \"b\"\nprintln(s)   // ab\u{1e}\
    target -= value\u{1f}\
    Compound subtract-assign, on a `var`, a property, or an indexed slot.\u{1f}\
    var n = 5\nn -= 2\nprintln(n)   // 3\u{1e}\
    target *= value\u{1f}\
    Compound multiply-assign.\u{1f}\
    var n = 6\nn *= 7\nprintln(n)   // 42\u{1e}\
    target /= value\u{1f}\
    Compound divide-assign, truncating when both sides are integral.\u{1f}\
    var n = 9\nn /= 2\nprintln(n)   // 4\u{1e}\
    target %= value\u{1f}\
    Compound remainder-assign.\u{1f}\
    var n = 9\nn %= 4\nprintln(n)   // 1\u{1e}\
    x++\n++x\u{1f}\
    Increment by one. The postfix form's value is the target *before* the update, the prefix form's is the value *after* — and both work in expression position, not only as a statement. The target may be a variable, a property, or an indexed element.\u{1f}\
    var k = 0\nprintln(k++)   // 0\nprintln(++k)   // 2\u{1e}\
    x--\n--x\u{1f}\
    Decrement by one, with the same prefix/postfix value rule as `++`.\u{1f}\
    var k = 2\nprintln(k--)   // 2\nprintln(k)     // 1\u{1e}\
    a == b\u{1f}\
    Structural equality. It compares numbers by value across `Int`/`Double`, `List`s element-wise, `Set`s order-insensitively, `Map`s entry-wise, and data-class instances over their primary-constructor properties. An `Array` inherits identity equality, so `arrayOf(1) == arrayOf(1)` is `false`. There is no `===` identity operator.\u{1f}\
    println(listOf(1, 2) == listOf(1, 2))   // true\nprintln(setOf(1, 2) == setOf(2, 1))     // true\u{1e}\
    a != b\u{1f}\
    The negation of `==`, with the same structural rules. There is no `!==`.\u{1f}\
    println(1 != 2)   // true\u{1e}\
    a < b\u{1f}\
    Less-than. Numbers compare numerically and `Char`s by code unit. `String`s do not compare with the relational operators here — kotlinrs implements no `compareTo` on `String`.\u{1f}\
    println(1 < 2)       // true\nprintln('a' < 'z')   // true\u{1e}\
    a > b\u{1f}\
    Greater-than, over numbers and `Char`s.\u{1f}\
    println(3 > 2)   // true\u{1e}\
    a <= b\u{1f}\
    Less-than-or-equal, over numbers and `Char`s.\u{1f}\
    println(2 <= 2)   // true\u{1e}\
    a >= b\u{1f}\
    Greater-than-or-equal, over numbers and `Char`s.\u{1f}\
    println(2 >= 3)   // false\u{1e}\
    a && b\u{1f}\
    Short-circuiting logical AND: the right operand is not evaluated when the left is false.\u{1f}\
    val xs = listOf(1)\nprintln(xs.isNotEmpty() && xs[0] == 1)   // true\u{1e}\
    a || b\u{1f}\
    Short-circuiting logical OR: the right operand is not evaluated when the left is true.\u{1f}\
    println(false || 1 < 2)   // true\u{1e}\
    !a\u{1f}\
    Logical negation. Written twice as a postfix it is instead the not-null assertion `!!`, and followed by `=`, `in` or `is` it forms `!=`, `!in`, `!is`.\u{1f}\
    println(!(1 > 2))   // true\u{1e}\
    a..b\u{1f}\
    Inclusive ascending range. It is a value, not only a loop header: it can be bound, passed, iterated, and asked for `sum`, `first`, `last`, `reversed` and the higher-order collection functions. `'a'..'z'` builds a `Char` range.\u{1f}\
    val r = 1..5\nprintln(r.sum())   // 15\u{1e}\
    recv?.member\nrecv?.method(args)\u{1f}\
    Safe call. The receiver is evaluated once; when it is null the whole expression is `null` and the member is never dispatched. Chains short-circuit as a unit.\u{1f}\
    val s: String? = null\nprintln(s?.length)   // null\u{1e}\
    a ?: b\u{1f}\
    Elvis. Yields the left operand unless it is null, in which case it evaluates and yields the right. Right-associative, binding looser than arithmetic and tighter than the comparisons — and its right side may be a `throw`.\u{1f}\
    val x: Int? = null\nprintln(x ?: 0)   // 0\u{1e}\
    expr!!\u{1f}\
    Not-null assertion: yields the operand, or raises `NullPointerException` when it is null. Lexed as two consecutive `!` tokens, so `a != b` is unaffected.\u{1f}\
    val x: Int? = 1\nprintln(x!! + 1)   // 2\u{1e}\
    T?\u{1f}\
    Marks a type nullable. kotlinrs parses the mark and then discards it — there is no static null checking, so a nullable and a non-nullable annotation compile identically and a null only surfaces at run time.\u{1f}\
    val x: Int? = null\nprintln(x)   // null\u{1e}\
    recv[index]\u{1f}\
    Indexed read. On a `String` the index is a UTF-16 code unit offset and the result is a `Char`; on a `List`, `Set` or `Array` it is a bounds-checked position; on a `Map` it is a key lookup that yields `null` when absent. Chainable: `m[k][i]`.\u{1f}\
    println(\"abc\"[1])                 // b\nprintln(listOf(10, 20)[1])        // 20\nprintln(mapOf(\"a\" to 1)[\"z\"])     // null\u{1e}\
    recv[index] = value\u{1f}\
    Indexed write. A `List` or `Array` slot is bounds-checked and raises `IndexOutOfBoundsException` past the end; a `Map` key is inserted when absent. Compound forms (`xs[0] += 1`) go through the same path.\u{1f}\
    val xs = mutableListOf(1, 2)\nxs[0] = 9\nprintln(xs)   // [9, 2]\u{1e}\
    { params -> body }\ncond -> result\u{1f}\
    Two roles: it separates a lambda's parameters from its body, and a `when` arm's conditions from its result. It also appears in a function type annotation, `(Int) -> Int`, whose parameter and return types are parsed and discarded.\u{1f}\
    val f: (Int) -> Int = { n -> n * 2 }\nprintln(f(21))   // 42\u{1e}\
    label@ for (…) { … }\nbreak@label\u{1f}\
    Loop labels. A `label@` prefix names the loop that follows, and `break@label` / `continue@label` target it. There is no `this@Label` and no `return@label`.\u{1f}\
    outer@ for (i in 1..3) { for (j in 1..3) { if (j == 2) continue@outer; print(i) } }   // 123\u{1e}\
    \"text $name text ${expr}\"\u{1f}\
    String template interpolation. A bare `$name` splices an identifier; `${…}` splices an arbitrary expression, re-parsed from the source between the braces. Each interpolated value is rendered by the same stringifier `println` uses, so a `Double` keeps its `.0` and `null` reads as `null`. `\\$` escapes a literal dollar.\u{1f}\
    val x = 2\nprintln(\"x=$x sq=${x * x}\")   // x=2 sq=4\u{1e}\
    first to second\u{1f}\
    The infix `Pair` constructor — the only way to build a `Pair` here, since `Pair(a, b)` is not a resolvable constructor. It is what `mapOf` takes as each argument.\u{1f}\
    val p = 1 to \"one\"\nprintln(p.first)   // 1\u{1e}\
    value !in container\u{1f}\
    Negated membership, over the same containers `in` accepts. A `when` arm may also read `!in a..b`.\u{1f}\
    println(4 !in 1..3)   // true\u{1e}\
    value !is Type\u{1f}\
    Negated runtime type check, usable in a `when` arm and in ordinary expression position.\u{1f}\
    val x: Any = 1\nprintln(x !is String)   // true\u{1e}\
    recv.member\nrecv.method(args)\u{1f}\
    Member access. kotlinrs does not distinguish a property from a zero-argument method: both resolve through the same dispatch, so `xs.size` and `xs.size()` — and `xs.sum` and `xs.sum()` — are the same call. Chains are left-associative and bind tighter than the prefix unary operators.\u{1f}\
    println(listOf(1, 2, 3).size)   // 3\u{1e}\
    name: Type\nclass C : Super(), Iface\u{1f}\
    Two roles: the type annotation separator on a binding, parameter or return type, and the supertype-list introducer on a class. Any identifier is accepted as a type name; only the eight primitives resolve to a static type, and every other name is carried as an opaque class name for dispatch.\u{1f}\
    val n: Int = 1\nprintln(n)   // 1\u{1e}\
    stmt; stmt\u{1f}\
    The optional statement separator. Newlines already terminate statements, so `;` matters only when two statements share a line — including inside a `when` arm list written on one line.\u{1f}\
    var a = 1; a += 1; println(a)   // 2";

/// The names of the chapter "Types".
pub open spec fn types_names() -> Seq<Seq<char>> {
    seq![
        "Int"@,
        "Long"@,
        "Double"@,
        "Float"@,
        "Boolean"@,
        "Char"@,
        "String"@,
        "Unit"@,
        "Any"@,
        "List"@,
        "MutableList"@,
        "Set"@,
        "MutableSet"@,
        "Map"@,
        "MutableMap"@,
        "Pair"@,
        "Array"@,
        "IntArray"@,
        "IntRange"@,
        "Nothing"@,
    ]
}

/// The texts of the chapter "Types".
pub const TYPES: &'static str = "Int\u{1f}\
    Signed 32-bit integer. Values are carried in a 64-bit slot at run time, so every `Int` arithmetic result is narrowed back to 32 bits at the point it is produced: `Int.MAX_VALUE + 1` wraps to `Int.MIN_VALUE`, exactly as on the JVM. `/` and `%` truncate toward zero.\u{1f}\
    val n: Int = 7 / 2\nprintln(n)              // 3\nprintln(Int.MAX_VALUE + 1)   // -2147483648\u{1e}\
    Long\u{1f}\
    Signed 64-bit integer, sharing `Int`'s division rules. An `L` literal suffix marks a value as 64-bit and prints without it, so `println(10L)` writes `10`. A `Long` operand keeps the whole expression at 64 bits, so it is not narrowed the way an `Int` result is: `2147483647L + 1L` is `2147483648`.\u{1f}\
    val big: Long = 10L\nprintln(big)                 // 10\nprintln(2147483647L + 1L)    // 2147483648\u{1e}\
    Double\u{1f}\
    IEEE-754 double. It stringifies the way the JVM does: a whole value keeps a trailing `.0`, magnitudes outside `[1e-3, 1e7)` switch to scientific form (`2.5E7`), and the non-finite values print as `NaN` / `Infinity` / `-Infinity`.\u{1f}\
    println(3.0)          // 3.0\nprintln(1.0 / 0.0)    // Infinity\u{1e}\
    Float\u{1f}\
    Accepted as an annotation and as an `f`-suffixed literal, but there is no distinct single-precision type: `Type::from_name` folds `Float` into `Double`, so a `Float` is stored, computed and printed at double precision.\u{1f}\
    val f: Float = 1.5f\nprintln(f)   // 1.5\u{1e}\
    Boolean\u{1f}\
    The `true`/`false` type, printed as `true` or `false`. A lambda predicate must return one: any other result — including `null` — is treated as not satisfied.\u{1f}\
    val b: Boolean = 1 < 2\nprintln(b)   // true\u{1e}\
    Char\u{1f}\
    A single UTF-16 code unit, and a distinct type from `Int` — it is carried as a tagged handle rather than a number, which is what makes it print as its character inside a `List` or a `Map`. Supports `+`/`-` displacement, comparison, `.code`, and `'a'..'z'` ranges.\u{1f}\
    val c: Char = 'A'\nprintln(c + 1)         // B\nprintln(listOf(c))     // [A]\u{1e}\
    String\u{1f}\
    Text, with `+` concatenation and `\"$x\"` interpolation. Every length, index and slice position is a UTF-16 code-unit offset, matching the JVM contract rather than the Unicode scalar count. Indexing yields a `Char`; iterating a `String` walks its code units. A string literal holds the characters written in it, so `\"café\".length` is 4.\u{1f}\
    val s: String = \"n = ${1 + 1}\"\nprintln(s)   // n = 2\u{1e}\
    Unit\u{1f}\
    The no-value type — the result of a function with no `return` and of `println`, `forEach` and the other effect-only calls. The compiler renders it statically as the literal `kotlin.Unit`.\u{1f}\
    fun log(): Unit { println(\"hi\") }\nfun main() { log() }\u{1e}\
    Any\u{1f}\
    The top type. It resolves to no static type here, so it behaves as an unannotated binding: members dispatch dynamically on the runtime value and `is` decides what it actually holds.\u{1f}\
    val x: Any = \"s\"\nprintln(x is String)   // true\u{1e}\
    List<T>\u{1f}\
    An ordered sequence, built by `listOf`. kotlinrs does not enforce read-only-ness — `List` and `MutableList` are the same runtime object, so `listOf(1, 2).add(3)` succeeds here where Kotlin rejects it at compile time. Prints as `[a, b]`.\u{1f}\
    val xs: List<Int> = listOf(1, 2, 3)\nprintln(xs)   // [1, 2, 3]\u{1e}\
    MutableList<T>\u{1f}\
    The mutable `List` annotation, built by `mutableListOf` / `arrayListOf`. It denotes the same runtime object as `List`; the distinction is documentation only.\u{1f}\
    val xs: MutableList<Int> = mutableListOf(1)\nxs.add(2)\nprintln(xs)   // [1, 2]\u{1e}\
    Set<T>\u{1f}\
    A distinct-element collection built by `setOf`. It keeps insertion order for display but compares order-insensitively, so `setOf(1, 2) == setOf(2, 1)` and a `Set` never equals a `List`. Prints as `[a, b]`.\u{1f}\
    println(setOf(3, 1, 3))   // [3, 1]\u{1e}\
    MutableSet<T>\u{1f}\
    The mutable `Set` annotation, built by `mutableSetOf`. `add` answers whether the element was new, which is what distinguishes it from a list's `add`.\u{1f}\
    val s: MutableSet<Int> = mutableSetOf(1)\nprintln(s.add(1))   // false\u{1e}\
    Map<K, V>\u{1f}\
    A key/value association built by `mapOf` from `k to v` pairs. It is an insertion-ordered entry list, not a hash table — lookup is a linear scan under structural key equality, and iteration order is always insertion order even for `hashMapOf`. Prints as `{k=v, k=v}`.\u{1f}\
    val m: Map<String, Int> = mapOf(\"a\" to 1)\nprintln(m)   // {a=1}\u{1e}\
    MutableMap<K, V>\u{1f}\
    The mutable `Map` annotation, built by `mutableMapOf` / `hashMapOf`. `put`, `remove` and indexed assignment all write through it.\u{1f}\
    val m: MutableMap<String, Int> = mutableMapOf()\nm[\"a\"] = 1\nprintln(m)   // {a=1}\u{1e}\
    Pair<A, B>\u{1f}\
    A two-element tuple, built only by the infix `to` — `Pair(a, b)` is not a resolvable constructor here. Its members are `first` and `second`, and it destructures through `component1`/`component2`.\u{1f}\
    val p: Pair<Int, String> = 1 to \"one\"\nprintln(p.second)   // one\u{1e}\
    Array<T>\u{1f}\
    A JVM-style array. It inherits identity equality and the JVM's descriptor `toString`, so `arrayOf(1, 2)` prints as `[Ljava.lang.Integer;@0` rather than showing its elements — use `joinToString` or `toList` to see them.\u{1f}\
    val a: Array<Int> = arrayOf(1, 2, 3)\nprintln(a[1])              // 2\nprintln(a.joinToString())  // 1, 2, 3\u{1e}\
    IntArray\u{1f}\
    A primitive `Int` array, descriptor `[I`. `DoubleArray` (`[D`), `BooleanArray` (`[Z`) and `CharArray` (`[C`) are the other three. All four share the sequence members with `List`.\u{1f}\
    val a: IntArray = IntArray(3)\nprintln(a.sum())   // 0\u{1e}\
    IntRange\u{1f}\
    The value `a..b` builds — iterable, summable, and a receiver for the higher-order collection functions. A re-stepped or reversed range becomes an `IntProgression`, which prints in its `a..b step n` / `a downTo b step n` form.\u{1f}\
    val r: IntRange = 1..5\nprintln(r.sum())        // 15\nprintln(r.reversed())   // 5 downTo 1 step 1\u{1e}\
    Nothing\u{1f}\
    The bottom type, the static type Kotlin gives a `throw`. kotlinrs accepts the annotation but resolves no static type from it — like every non-primitive name it is carried as an opaque class name.\u{1f}\
    fun fail(): Nothing = throw IllegalStateException(\"no\")\nfun main() { println(try { fail() } catch (e: Exception) { \"caught\" }) }";

/// The names of the chapter "Builtin Functions".
pub open spec fn builtin_functions_names() -> Seq<Seq<char>> {
    seq![
        "println"@,
        "print"@,
        "listOf"@,
        "mutableListOf"@,
        "arrayListOf"@,
        "emptyList"@,
        "setOf"@,
        "mutableSetOf"@,
        "hashSetOf"@,
        "linkedSetOf"@,
        "sortedSetOf"@,
        "emptySet"@,
        "mapOf"@,
        "mutableMapOf"@,
        "hashMapOf"@,
        "emptyMap"@,
        "arrayOf"@,
        "intArrayOf"@,
        "doubleArrayOf"@,
        "booleanArrayOf"@,
        "charArrayOf"@,
        "IntArray"@,
        "DoubleArray"@,
        "BooleanArray"@,
        "CharArray"@,
        "Array"@,
    ]
}

/// The texts of the chapter "Builtin Functions".
pub const BUILTIN_FUNCTIONS: &'static str = "println()\nprintln(value: Any?)\u{1f}\
    Writes a value to stdout followed by a newline, and returns `Unit`. It takes at most one argument. While an exception is unwinding it is suppressed, so nothing is emitted between a `throw` and its handler.\u{1f}\
    println(6 * 7)   // 42\u{1e}\
    print()\nprint(value: Any?)\u{1f}\
    Writes a value to stdout with no trailing newline. Same one-argument limit and unwinding suppression as `println`.\u{1f}\
    print(\"a\"); print(\"b\")   // ab\u{1e}\
    listOf(vararg elements: T): List<T>\u{1f}\
    Builds a `List` from its arguments. The result is a plain mutable heap list — kotlinrs does not enforce read-only-ness, so `add` on it succeeds.\u{1f}\
    val xs = listOf(1, 2, 3)\nprintln(xs.size)   // 3\u{1e}\
    mutableListOf(vararg elements: T): MutableList<T>\u{1f}\
    Builds a mutable `List`. Identical to `listOf` at run time; the two differ only in what the annotation documents.\u{1f}\
    val xs = mutableListOf(1)\nxs.add(2)\nprintln(xs)   // [1, 2]\u{1e}\
    arrayListOf(vararg elements: T): MutableList<T>\u{1f}\
    The `java.util.ArrayList` spelling of `mutableListOf`. It builds the same heap list.\u{1f}\
    println(arrayListOf(1, 2))   // [1, 2]\u{1e}\
    emptyList(): List<T>\u{1f}\
    Builds an empty `List`. An explicit type argument (`emptyList<Int>()`) is accepted and ignored — typing here is coarse.\u{1f}\
    println(emptyList<Int>())   // []\u{1e}\
    setOf(vararg elements: T): Set<T>\u{1f}\
    Builds a `Set`: duplicates are dropped on the way in, insertion order is kept for display, and equality is order-insensitive. This is Kotlin's `LinkedHashSet`-backed behaviour.\u{1f}\
    println(setOf(3, 1, 3))   // [3, 1]\u{1e}\
    mutableSetOf(vararg elements: T): MutableSet<T>\u{1f}\
    Builds a mutable `Set`. `add` on it answers whether the element was new.\u{1f}\
    val s = mutableSetOf(1)\nprintln(s.add(2))   // true\u{1e}\
    hashSetOf(vararg elements: T): MutableSet<T>\u{1f}\
    Builds the same insertion-ordered `Set` every other set builder does. Kotlin's `HashSet` has no order guarantee; here the display order is always insertion order.\u{1f}\
    println(hashSetOf(3, 1))   // [3, 1]\u{1e}\
    linkedSetOf(vararg elements: T): MutableSet<T>\u{1f}\
    The `LinkedHashSet` spelling. Insertion-ordered, which is what every `Set` here already is.\u{1f}\
    println(linkedSetOf(2, 1))   // [2, 1]\u{1e}\
    sortedSetOf(vararg elements: T): MutableSet<T>\u{1f}\
    Accepted, but it does **not** sort — it builds the same insertion-ordered distinct set as `setOf`. This diverges from Kotlin, where the result is a `TreeSet` in ascending order. Call `sorted()` on it if order matters.\u{1f}\
    println(sortedSetOf(3, 1, 2))            // [3, 1, 2]\nprintln(sortedSetOf(3, 1, 2).sorted())   // [1, 2, 3]\u{1e}\
    emptySet(): Set<T>\u{1f}\
    Builds an empty `Set`.\u{1f}\
    println(emptySet<Int>())   // []\u{1e}\
    mapOf(vararg pairs: Pair<K, V>): Map<K, V>\u{1f}\
    Builds a `Map` from `k to v` pairs. Entries stay in insertion order and keys are matched by structural equality on a linear scan.\u{1f}\
    val m = mapOf(\"a\" to 1, \"b\" to 2)\nprintln(m[\"a\"])   // 1\u{1e}\
    mutableMapOf(vararg pairs: Pair<K, V>): MutableMap<K, V>\u{1f}\
    Builds a mutable `Map`. `put`, `remove` and `m[k] = v` all write through it.\u{1f}\
    val m = mutableMapOf(\"a\" to 1)\nm[\"b\"] = 2\nprintln(m)   // {a=1, b=2}\u{1e}\
    hashMapOf(vararg pairs: Pair<K, V>): MutableMap<K, V>\u{1f}\
    Builds the same insertion-ordered `Map` `mutableMapOf` does. Kotlin's `HashMap` has no order guarantee; here iteration and display order are always insertion order.\u{1f}\
    println(hashMapOf(\"b\" to 1, \"a\" to 2))   // {b=1, a=2}\u{1e}\
    emptyMap(): Map<K, V>\u{1f}\
    Builds an empty `Map`, which prints as `{}`.\u{1f}\
    println(emptyMap<String, Int>())   // {}\u{1e}\
    arrayOf(vararg elements: T): Array<T>\u{1f}\
    Builds a JVM-style array. The element values decide the descriptor at run time, so a boxed array prints as `[Ljava.lang.Integer;@n` and compares by identity.\u{1f}\
    val a = arrayOf(1, 2, 3)\nprintln(a[1])   // 2\u{1e}\
    intArrayOf(vararg elements: Int): IntArray\u{1f}\
    Builds a primitive `Int` array from the given elements.\u{1f}\
    println(intArrayOf(1, 2).sum())   // 3\u{1e}\
    doubleArrayOf(vararg elements: Double): DoubleArray\u{1f}\
    Builds a primitive `Double` array.\u{1f}\
    println(doubleArrayOf(1.5, 2.5).sum())   // 4.0\u{1e}\
    booleanArrayOf(vararg elements: Boolean): BooleanArray\u{1f}\
    Builds a primitive `Boolean` array.\u{1f}\
    println(booleanArrayOf(true, false).size)   // 2\u{1e}\
    charArrayOf(vararg elements: Char): CharArray\u{1f}\
    Builds a primitive `Char` array.\u{1f}\
    println(charArrayOf('a', 'b').joinToString(\"\"))   // ab\u{1e}\
    IntArray(size: Int): IntArray\nIntArray(size: Int) { i -> … }: IntArray\u{1f}\
    Builds a zero-filled `Int` array of the given size, or fills each slot with the lambda applied to its index. A negative size raises `NegativeArraySizeException`.\u{1f}\
    println(IntArray(3).sum())              // 0\nprintln(IntArray(3) { it * 2 }.sum())   // 6\u{1e}\
    DoubleArray(size: Int): DoubleArray\nDoubleArray(size: Int) { i -> … }: DoubleArray\u{1f}\
    Builds a zero-filled `Double` array, or fills it from the index lambda.\u{1f}\
    println(DoubleArray(2).sum())   // 0.0\u{1e}\
    BooleanArray(size: Int): BooleanArray\nBooleanArray(size: Int) { i -> … }: BooleanArray\u{1f}\
    Builds a zero-filled `Boolean` array, or fills it from the index lambda.\u{1f}\
    println(BooleanArray(3).size)   // 3\u{1e}\
    CharArray(size: Int): CharArray\nCharArray(size: Int) { i -> … }: CharArray\u{1f}\
    Builds a zero-filled `Char` array, or fills it from the index lambda.\u{1f}\
    println(CharArray(2).size)   // 2\u{1e}\
    Array(size: Int) { i -> … }: Array<T>\u{1f}\
    Builds a generic array from an index lambda. Unlike the four primitive builders it exists *only* in the initializer form — Kotlin has no zero-filled `Array(n)` — and its descriptor is inferred from the elements the lambda produced.\u{1f}\
    println(Array(3) { it * 2 }.joinToString())   // 0, 2, 4";

/// The names of the chapter "Math".
pub open spec fn math_names() -> Seq<Seq<char>> {
    seq![
        "abs"@,
        "sqrt"@,
        "floor"@,
        "ceil"@,
        "round"@,
        "max"@,
        "min"@,
        "maxOf"@,
        "minOf"@,
        "PI"@,
        "E"@,
        "Math"@,
        "Math.round"@,
    ]
}

/// The texts of the chapter "Math".
pub const MATH: &'static str = "abs(n: Int): Int\nabs(x: Double): Double\u{1f}\
    Absolute value, keeping an `Int` result for an integral argument. Lives in `kotlin.math`, so it is unresolvable without `import kotlin.math.abs` or a star import — exactly as in Kotlin.\u{1f}\
    import kotlin.math.abs\nfun main() { println(abs(-3)) }   // 3\u{1e}\
    sqrt(x: Double): Double\u{1f}\
    Square root, always `Double`. Needs the `kotlin.math` import.\u{1f}\
    import kotlin.math.sqrt\nfun main() { println(sqrt(9.0)) }   // 3.0\u{1e}\
    floor(x: Double): Double\u{1f}\
    Largest `Double` no greater than the argument. Needs the `kotlin.math` import.\u{1f}\
    import kotlin.math.floor\nfun main() { println(floor(-1.5)) }   // -2.0\u{1e}\
    ceil(x: Double): Double\u{1f}\
    Smallest `Double` no less than the argument. Needs the `kotlin.math` import.\u{1f}\
    import kotlin.math.ceil\nfun main() { println(ceil(1.2)) }   // 2.0\u{1e}\
    round(x: Double): Double\u{1f}\
    Rounds to the closest integer as a `Double`, with **ties to even** — `round(2.5)` is `2.0` and `round(3.5)` is `4.0`. This is `kotlin.math.round`; `Math.round` is the different, half-up, `Long`-returning one.\u{1f}\
    import kotlin.math.round\nfun main() { println(round(2.5)) }   // 2.0\u{1e}\
    max(a: Int, b: Int): Int\nmax(a: Double, b: Double): Double\u{1f}\
    Larger of two values, keeping an `Int` result when both are integral. Lives in `kotlin.math` and needs the import; `maxOf` is the auto-imported spelling of the same operation.\u{1f}\
    import kotlin.math.max\nfun main() { println(max(2, 9)) }   // 9\u{1e}\
    min(a: Int, b: Int): Int\nmin(a: Double, b: Double): Double\u{1f}\
    Smaller of two values, keeping an `Int` result when both are integral. Needs the `kotlin.math` import; `minOf` is the auto-imported spelling.\u{1f}\
    import kotlin.math.min\nfun main() { println(min(2, 9)) }   // 2\u{1e}\
    maxOf(a: T, b: T): T\u{1f}\
    Larger of two values. It lives in the auto-imported `kotlin` package, so unlike `max` it needs no import; it dispatches to the same implementation.\u{1f}\
    println(maxOf(2, 9))   // 9\u{1e}\
    minOf(a: T, b: T): T\u{1f}\
    Smaller of two values, auto-imported like `maxOf` and sharing `min`'s implementation.\u{1f}\
    println(minOf(2, 9))   // 2\u{1e}\
    PI: Double\u{1f}\
    The `kotlin.math` circle constant, in scope only under the import. It folds to a literal at compile time rather than paying a host dispatch. Also reachable as `Math.PI`, which needs no import.\u{1f}\
    import kotlin.math.PI\nfun main() { println(PI) }   // 3.141592653589793\u{1e}\
    E: Double\u{1f}\
    The `kotlin.math` base of the natural logarithm, in scope only under the import, and also reachable as `Math.E`.\u{1f}\
    import kotlin.math.E\nfun main() { println(E) }   // 2.718281828459045\u{1e}\
    Math.abs(…)  Math.max(…)  Math.min(…)\nMath.sqrt(…)  Math.floor(…)  Math.ceil(…)\nMath.round(…)  Math.PI  Math.E\u{1f}\
    The `java.lang.Math` statics. Kotlin auto-imports `java.lang.*` on the JVM, so these need no import line — which is the practical difference from the `kotlin.math` top-level spellings. A local binding or a user class named `Math` shadows the whole thing.\u{1f}\
    println(Math.abs(-3))   // 3\u{1e}\
    Math.round(x: Double): Long\u{1f}\
    The odd one out of the rounding family: **half-up** (`floor(x + 0.5)`) and returning a `Long`, where `kotlin.math.round` is ties-to-even and returns a `Double`. It dispatches under its own name for exactly that reason.\u{1f}\
    println(Math.round(2.5))   // 3";

/// The names of the chapter "Throwables".
pub open spec fn throwables_names() -> Seq<Seq<char>> {
    seq![
        "Throwable"@,
        "Exception"@,
        "Error"@,
        "RuntimeException"@,
        "ArithmeticException"@,
        "IllegalArgumentException"@,
        "IllegalStateException"@,
        "NumberFormatException"@,
        "IndexOutOfBoundsException"@,
        "StringIndexOutOfBoundsException"@,
        "ArrayIndexOutOfBoundsException"@,
        "NullPointerException"@,
        "ClassCastException"@,
        "UnsupportedOperationException"@,
        "NegativeArraySizeException"@,
        "NoSuchElementException"@,
    ]
}

/// The texts of the chapter "Throwables".
pub const THROWABLES: &'static str = "Throwable()\nThrowable(message: String)\u{1f}\
    The root of the modelled hierarchy — `java.lang.Throwable`. `catch (e: Throwable)` matches anything in flight, including a value that is not one of the sixteen built-in classes. A constructor with no argument leaves `message` null.\u{1f}\
    try { throw Throwable(\"boom\") } catch (e: Throwable) { println(e.message) }   // boom\u{1e}\
    Exception()\nException(message: String)\u{1f}\
    `java.lang.Exception`, the parent of `RuntimeException`. Catching it catches every runtime exception below it but not an `Error`.\u{1f}\
    try { 1 / 0 } catch (e: Exception) { println(\"caught\") }   // caught\u{1e}\
    Error()\nError(message: String)\u{1f}\
    `java.lang.Error`, a direct child of `Throwable` and a sibling of `Exception` — so `catch (e: Exception)` does *not* catch it.\u{1f}\
    try { throw Error(\"fatal\") } catch (e: Throwable) { println(\"caught\") }   // caught\u{1e}\
    RuntimeException()\nRuntimeException(message: String)\u{1f}\
    `java.lang.RuntimeException`, the parent of every fault the runtime itself raises.\u{1f}\
    try { throw RuntimeException(\"x\") } catch (e: RuntimeException) { println(e.message) }   // x\u{1e}\
    ArithmeticException(message: String)\u{1f}\
    Raised by integer `/` and `%` when the divisor is zero, with the message `/ by zero`. Floating-point division never raises it — it yields `Infinity` or `NaN`.\u{1f}\
    try { 1 / 0 } catch (e: ArithmeticException) { println(e.message) }   // / by zero\u{1e}\
    IllegalArgumentException(message: String)\u{1f}\
    Raised by a negative `take`/`drop`/`repeat` count, a non-positive range `step`, and `digitToInt` on a non-digit `Char`.\u{1f}\
    try { listOf(1).take(-1) } catch (e: IllegalArgumentException) { println(\"caught\") }   // caught\u{1e}\
    IllegalStateException(message: String)\u{1f}\
    Never raised by the runtime itself — it is here for user code, most often as the right operand of `?:`.\u{1f}\
    val x: Int? = null\ntry { x ?: throw IllegalStateException(\"missing\") } catch (e: Exception) { println(e.message) }\u{1e}\
    NumberFormatException(message: String)\u{1f}\
    A child of `IllegalArgumentException`. kotlinrs never raises it — there is no `String.toInt` to fail — so it exists for user code and for the hierarchy's shape.\u{1f}\
    try { throw NumberFormatException(\"bad\") } catch (e: IllegalArgumentException) { println(\"caught\") }\u{1e}\
    IndexOutOfBoundsException(message: String)\u{1f}\
    The parent of the string and array out-of-range classes. It is raised directly by `removeAt` past the end of a list and by an indexed write past the end.\u{1f}\
    try { mutableListOf(1).removeAt(5) } catch (e: IndexOutOfBoundsException) { println(\"caught\") }\u{1e}\
    StringIndexOutOfBoundsException(message: String)\u{1f}\
    Raised by `s[i]` and `substring` when a UTF-16 offset falls outside the string.\u{1f}\
    try { \"abc\".substring(9) } catch (e: Exception) { println(e.message) }\u{1e}\
    ArrayIndexOutOfBoundsException(message: String)\u{1f}\
    Raised by an out-of-range indexed read on a `List`, `Set` or `Array` — note that the *method* form, `get(i)`, raises `NoSuchElementException` instead, which diverges from Kotlin.\u{1f}\
    try { listOf(1, 2)[5] } catch (e: Exception) { println(e.message) }\u{1e}\
    NullPointerException()\nNullPointerException(message: String)\u{1f}\
    Raised by `!!` on a null value. Since kotlinrs does no static null checking, `!!` is the only place the runtime produces one on its own.\u{1f}\
    val x: Int? = null\ntry { x!! } catch (e: NullPointerException) { println(\"caught\") }\u{1e}\
    ClassCastException(message: String)\u{1f}\
    Modelled for the hierarchy but never raised: kotlinrs has no `as` cast operator, so there is no cast to fail.\u{1f}\
    try { throw ClassCastException(\"x\") } catch (e: RuntimeException) { println(\"caught\") }\u{1e}\
    UnsupportedOperationException(message: String)\u{1f}\
    Raised by `reduce` on an empty sequence, with the message `Empty collection can't be reduced.`\u{1f}\
    try { listOf<Int>().reduce { a, b -> a + b } } catch (e: Exception) { println(\"caught\") }\u{1e}\
    NegativeArraySizeException(message: String)\u{1f}\
    Raised by an array builder given a negative size, such as `IntArray(-1)`.\u{1f}\
    try { IntArray(-1) } catch (e: Exception) { println(\"caught\") }\u{1e}\
    NoSuchElementException(message: String)\u{1f}\
    The one built-in throwable outside `java.lang` — it is `java.util.NoSuchElementException`, and the package is observable through `toString`. Raised by `first`, `last`, `get`, `max` and `min` on an empty sequence, with the message `List is empty.`\u{1f}\
    try { listOf<Int>().first() } catch (e: NoSuchElementException) { println(e.message) }";

/// The names of the chapter "String Members".
pub open spec fn string_members_names() -> Seq<Seq<char>> {
    seq![
        "length"@,
        "uppercase"@,
        "toUpperCase"@,
        "lowercase"@,
        "toLowerCase"@,
        "trim"@,
        "isEmpty"@,
        "isNotEmpty"@,
        "isBlank"@,
        "isNotBlank"@,
        "contains"@,
        "startsWith"@,
        "endsWith"@,
        "plus"@,
        "replace"@,
        "repeat"@,
        "indexOf"@,
        "substring"@,
    ]
}

/// The texts of the chapter "String Members".
pub const STRING_MEMBERS: &'static str = "String.length: Int\u{1f}\
    Number of UTF-16 code units — the JVM `kotlin.String.length` contract, not the Unicode scalar count. Every index, slice and `indexOf` result uses the same basis. A character outside the basic plane counts as the two units of its surrogate pair.\u{1f}\
    println(\"abc\".length)   // 3\u{1e}\
    String.uppercase(): String\u{1f}\
    Full Unicode uppercase mapping, so a character whose mapping expands does expand (`ß` becomes `SS`). No locale argument is accepted.\u{1f}\
    println(\"abc\".uppercase())   // ABC\u{1e}\
    String.toUpperCase(): String\u{1f}\
    The deprecated Kotlin spelling of `uppercase`, accepted here and dispatching to the same implementation.\u{1f}\
    println(\"abc\".toUpperCase())   // ABC\u{1e}\
    String.lowercase(): String\u{1f}\
    Full Unicode lowercase mapping. No locale argument is accepted.\u{1f}\
    println(\"ABC\".lowercase())   // abc\u{1e}\
    String.toLowerCase(): String\u{1f}\
    The deprecated Kotlin spelling of `lowercase`, dispatching to the same implementation.\u{1f}\
    println(\"ABC\".toLowerCase())   // abc\u{1e}\
    String.trim(): String\u{1f}\
    Strips leading and trailing whitespace, by Unicode's whitespace definition. There is no predicate or char-set overload, and no `trimStart`/`trimEnd`/`trimIndent`.\u{1f}\
    println(\"  hi  \".trim())   // hi\u{1e}\
    String.isEmpty(): Boolean\u{1f}\
    True when the string has no code units at all.\u{1f}\
    println(\"\".isEmpty())   // true\u{1e}\
    String.isNotEmpty(): Boolean\u{1f}\
    The negation of `isEmpty`.\u{1f}\
    println(\"a\".isNotEmpty())   // true\u{1e}\
    String.isBlank(): Boolean\u{1f}\
    True when the string is empty or made only of whitespace.\u{1f}\
    println(\"  \".isBlank())   // true\u{1e}\
    String.isNotBlank(): Boolean\u{1f}\
    The negation of `isBlank`.\u{1f}\
    println(\" x \".isNotBlank())   // true\u{1e}\
    String.contains(other: Any): Boolean\u{1f}\
    Substring test. The argument is rendered by the same stringifier `println` uses, so a `Char` argument reads as its character — but an `Int` reads as its digits, which means `\"abc\".contains(97)` is `false` where the JVM's `Char` overload would say `true`. There is no `ignoreCase` parameter and no `Regex` overload.\u{1f}\
    println(\"abc\".contains(\"bc\"))   // true\nprintln(\"abc\".contains('b'))     // true\u{1e}\
    String.startsWith(prefix: Any): Boolean\u{1f}\
    Prefix test, with the argument rendered the same way `contains` renders it. No `ignoreCase` or start-offset parameter.\u{1f}\
    println(\"abc\".startsWith(\"ab\"))   // true\u{1e}\
    String.endsWith(suffix: Any): Boolean\u{1f}\
    Suffix test. No `ignoreCase` parameter.\u{1f}\
    println(\"abc\".endsWith(\"bc\"))   // true\u{1e}\
    String.plus(other: Any): String\u{1f}\
    The method spelling of `+` — what `a + b` compiles to on the JVM, and the form `+` has to take to be reached through a safe call.\u{1f}\
    println(\"ab\".plus(\"c\"))   // abc\u{1e}\
    String.replace(old: Any, new: Any): String\u{1f}\
    Replaces every occurrence of a literal substring. There is no `Regex` overload and no `ignoreCase` parameter.\u{1f}\
    println(\"a-b-c\".replace(\"-\", \"+\"))   // a+b+c\u{1e}\
    String.repeat(n: Int): String\u{1f}\
    Concatenates the string with itself `n` times. `n` of zero yields the empty string; a negative `n` raises `IllegalArgumentException: Count 'n' must be non-negative, but was N.`\u{1f}\
    println(\"ab\".repeat(2))   // abab\u{1e}\
    String.indexOf(needle: Any): Int\u{1f}\
    UTF-16 offset of the first occurrence, or -1 when there is none. There is no start-index parameter and no `lastIndexOf`.\u{1f}\
    println(\"abc\".indexOf(\"c\"))   // 2\u{1e}\
    String.substring(start: Int): String\nString.substring(start: Int, end: Int): String\u{1f}\
    Slice between two UTF-16 offsets, `end` exclusive and defaulting to the length. An out-of-range or inverted pair raises `StringIndexOutOfBoundsException: Range [start, end) out of bounds for length N`.\u{1f}\
    println(\"hello\".substring(1, 3))   // el";

/// The names of the chapter "Char Members".
pub open spec fn char_members_names() -> Seq<Seq<char>> {
    seq![
        "code"@,
        "digitToInt"@,
        "isDigit"@,
        "isLetter"@,
        "isLetterOrDigit"@,
        "isWhitespace"@,
        "isUpperCase"@,
        "isLowerCase"@,
        "uppercaseChar"@,
        "lowercaseChar"@,
        "uppercase"@,
        "lowercase"@,
        "compareTo"@,
        "plus"@,
        "minus"@,
        "equals"@,
        "hashCode"@,
        "toString"@,
    ]
}

/// The texts of the chapter "Char Members".
pub const CHAR_MEMBERS: &'static str = "Char.code: Int\u{1f}\
    The character's UTF-16 code unit as an `Int`. The inverse is `Int.toChar()`.\u{1f}\
    println('A'.code)   // 65\u{1e}\
    Char.digitToInt(): Int\u{1f}\
    The decimal value of a digit character. Radix 10 only — no radix parameter — and a non-digit raises `IllegalArgumentException: Char c is not a decimal digit`. There is no `digitToIntOrNull`.\u{1f}\
    println('7'.digitToInt())   // 7\u{1e}\
    Char.isDigit(): Boolean\u{1f}\
    True for a Unicode numeric character. The classification delegates to Rust's Unicode tables, which agree with the JVM's `Character` over ASCII.\u{1f}\
    println('7'.isDigit())   // true\u{1e}\
    Char.isLetter(): Boolean\u{1f}\
    True for a Unicode alphabetic character. A lone surrogate half is neither letter nor digit, on this runtime and on the JVM alike.\u{1f}\
    println('a'.isLetter())   // true\u{1e}\
    Char.isLetterOrDigit(): Boolean\u{1f}\
    True for a Unicode alphanumeric character.\u{1f}\
    println('_'.isLetterOrDigit())   // false\u{1e}\
    Char.isWhitespace(): Boolean\u{1f}\
    True for a Unicode whitespace character.\u{1f}\
    println(' '.isWhitespace())   // true\u{1e}\
    Char.isUpperCase(): Boolean\u{1f}\
    True for a Unicode uppercase character.\u{1f}\
    println('A'.isUpperCase())   // true\u{1e}\
    Char.isLowerCase(): Boolean\u{1f}\
    True for a Unicode lowercase character.\u{1f}\
    println('a'.isLowerCase())   // true\u{1e}\
    Char.uppercaseChar(): Char\u{1f}\
    The uppercase mapping as a single `Char`. When the mapping would expand to more than one character the original is kept — the JVM's `Character.toUpperCase(char)` contract, so `'ß'.uppercaseChar()` is still `'ß'`.\u{1f}\
    println('a'.uppercaseChar())   // A\u{1e}\
    Char.lowercaseChar(): Char\u{1f}\
    The lowercase mapping as a single `Char`, keeping the original when the mapping would expand.\u{1f}\
    println('A'.lowercaseChar())   // a\u{1e}\
    Char.uppercase(): String\u{1f}\
    The full uppercase mapping as a `String`, which is what lets an expanding mapping expand — unlike `uppercaseChar`.\u{1f}\
    println('a'.uppercase())   // A\u{1e}\
    Char.lowercase(): String\u{1f}\
    The full lowercase mapping as a `String`.\u{1f}\
    println('A'.lowercase())   // a\u{1e}\
    Char.compareTo(other: Char): Int\u{1f}\
    Orders two characters by code unit. It returns the sign only — -1, 0 or 1 — where the JVM returns the code-unit difference. The sign is all Kotlin's `Comparable` contract promises, but a program that reads the magnitude will see a different number here.\u{1f}\
    println('b'.compareTo('a'))   // 1\u{1e}\
    Char.plus(n: Int): Char\u{1f}\
    Displaces the code unit upward, yielding a `Char`. The result wraps into 16 bits.\u{1f}\
    println('A'.plus(1))   // B\u{1e}\
    Char.minus(n: Int): Char\nChar.minus(other: Char): Int\u{1f}\
    Two behaviours chosen by the argument: subtracting an `Int` displaces the code unit and yields a `Char`; subtracting another `Char` yields the `Int` distance between them.\u{1f}\
    println('c'.minus(1))     // b\nprintln('c'.minus('a'))   // 2\u{1e}\
    Char.equals(other: Any?): Boolean\u{1f}\
    Code-unit equality. A `Char` is a tagged handle rather than a heap object, so this needs no heap read.\u{1f}\
    println('a'.equals('a'))   // true\u{1e}\
    Char.hashCode(): Int\u{1f}\
    The code unit itself, matching the JVM's `Character.hashCode`.\u{1f}\
    println('A'.hashCode())   // 65\u{1e}\
    Char.toString(): String\u{1f}\
    The one-character string. The compiler resolves this statically from the receiver's type rather than through the generic stringifier, because the runtime representation alone could not tell a `Char` from a number.\u{1f}\
    println('A'.toString() + \"!\")   // A!";

/// The names of the chapter "Sequence Members".
pub open spec fn sequence_members_names() -> Seq<Seq<char>> {
    seq![
        "size"@,
        "count"@,
        "isEmpty"@,
        "isNotEmpty"@,
        "first"@,
        "last"@,
        "get"@,
        "contains"@,
        "indexOf"@,
        "sum"@,
        "average"@,
        "max"@,
        "min"@,
        "toList"@,
        "toMutableList"@,
        "toTypedArray"@,
        "asList"@,
        "toSet"@,
        "toMutableSet"@,
        "toHashSet"@,
        "distinct"@,
        "union"@,
        "intersect"@,
        "subtract"@,
        "sorted"@,
        "sortedDescending"@,
        "take"@,
        "drop"@,
        "joinToString"@,
        "reversed"@,
    ]
}

/// The texts of the chapter "Sequence Members".
pub const SEQUENCE_MEMBERS: &'static str = "size: Int\u{1f}\
    Element count. Implemented once and shared by `List`, `Set`, `Array` and a range, so the four cannot drift apart. `count()` with no argument is the same call.\u{1f}\
    println(listOf(1, 2, 3).size)   // 3\u{1e}\
    count(): Int\u{1f}\
    Element count, identical to `size` when called with no argument. With a lambda it is instead the predicate-counting higher-order function.\u{1f}\
    println((1..5).count())   // 5\u{1e}\
    isEmpty(): Boolean\u{1f}\
    True when the sequence holds no elements.\u{1f}\
    println(emptyList<Int>().isEmpty())   // true\u{1e}\
    isNotEmpty(): Boolean\u{1f}\
    The negation of `isEmpty`.\u{1f}\
    println(listOf(1).isNotEmpty())   // true\u{1e}\
    first(): T\u{1f}\
    The first element. On a range it is instead a progression *property* — the start value, defined even when the range is empty. On a list, set or array an empty receiver raises `NoSuchElementException: List is empty.` There is no `firstOrNull` and no predicate overload.\u{1f}\
    println(listOf(10, 20).first())   // 10\u{1e}\
    last(): T\u{1f}\
    The last element, or a range's end value as a progression property. An empty list, set or array raises `NoSuchElementException`. There is no `lastOrNull`.\u{1f}\
    println(listOf(10, 20).last())   // 20\u{1e}\
    get(index: Int): T\u{1f}\
    Element at a position. Out of range it raises `NoSuchElementException: List is empty.` — which diverges from Kotlin, and from the `[]` operator on the same receiver, which raises `ArrayIndexOutOfBoundsException`.\u{1f}\
    println(listOf(10, 20).get(1))   // 20\u{1e}\
    contains(element: T): Boolean\u{1f}\
    Membership by structural equality — the same comparison `==` uses, so a nested list or data-class element compares by value.\u{1f}\
    println(listOf(1, 2).contains(2))   // true\u{1e}\
    indexOf(element: T): Int\u{1f}\
    Position of the first structurally equal element, or -1. There is no `lastIndexOf` and no `indexOfFirst`.\u{1f}\
    println(listOf(\"a\", \"b\").indexOf(\"b\"))   // 1\u{1e}\
    sum(): Int\nsum(): Double\u{1f}\
    Adds the elements. The result is an `Int` when every element is integral and a `Double` otherwise — so a mixed sequence sums to a `Double`. An empty sequence sums to `0`.\u{1f}\
    println(listOf(1, 2, 3).sum())   // 6\u{1e}\
    average(): Double\u{1f}\
    Arithmetic mean, always a `Double`. An empty sequence averages to `NaN` rather than raising, matching Kotlin.\u{1f}\
    println(listOf(1, 2).average())   // 1.5\u{1e}\
    max(): T\u{1f}\
    The largest element — strings lexicographically, chars by code unit, everything else numerically. An empty sequence raises `NoSuchElementException`. kotlinrs implements the pre-1.4 spelling only: there is no `maxOrNull`.\u{1f}\
    println(listOf(3, 1, 2).max())   // 3\u{1e}\
    min(): T\u{1f}\
    The smallest element, by the same ordering as `max`, raising on an empty sequence. There is no `minOrNull`.\u{1f}\
    println(listOf(3, 1, 2).min())   // 1\u{1e}\
    toList(): List<T>\u{1f}\
    A `List` holding the same elements, in order. On a range this is what materializes it.\u{1f}\
    println((1..3).toList())   // [1, 2, 3]\u{1e}\
    toMutableList(): MutableList<T>\u{1f}\
    The same copy `toList` makes — `List` and `MutableList` are one runtime object here.\u{1f}\
    println(setOf(1, 2).toMutableList())   // [1, 2]\u{1e}\
    toTypedArray(): Array<T>\u{1f}\
    Yields a `List`, not an `Array` — it shares `toList`'s implementation. This diverges from Kotlin: the result prints its elements as `[1, 2]` and compares structurally, where a real array would print its JVM descriptor and compare by identity.\u{1f}\
    println(listOf(1, 2).toTypedArray())   // [1, 2]\u{1e}\
    asList(): List<T>\u{1f}\
    A `List` over the same elements. It is a copy here rather than a view, so mutating the receiver afterwards does not show through.\u{1f}\
    println(intArrayOf(1, 2).asList())   // [1, 2]\u{1e}\
    toSet(): Set<T>\u{1f}\
    A `Set` of the distinct elements, first occurrence kept, in encounter order.\u{1f}\
    println(listOf(3, 1, 3).toSet())   // [3, 1]\u{1e}\
    toMutableSet(): MutableSet<T>\u{1f}\
    The same distinct `Set` `toSet` builds.\u{1f}\
    println(listOf(1, 1).toMutableSet())   // [1]\u{1e}\
    toHashSet(): MutableSet<T>\u{1f}\
    The same insertion-ordered distinct `Set`. Kotlin's `HashSet` gives no order guarantee; here encounter order is always kept.\u{1f}\
    println(listOf(2, 1, 2).toHashSet())   // [2, 1]\u{1e}\
    distinct(): List<T>\u{1f}\
    The distinct elements as a **`List`**, where `toSet` gives the same elements as a `Set`. That is the whole difference between the two, and it decides how the result compares and prints.\u{1f}\
    println(listOf(3, 1, 3).distinct())   // [3, 1]\u{1e}\
    union(other: Iterable<T>): Set<T>\u{1f}\
    Distinct elements of the receiver followed by those of the argument, as a `Set`. Defined on any iterable receiver, and always returning a `Set` whatever kind the receiver was. Only the method form parses — `a union b` as an infix call is a syntax error.\u{1f}\
    println(listOf(1, 2).union(listOf(2, 3)))   // [1, 2, 3]\u{1e}\
    intersect(other: Iterable<T>): Set<T>\u{1f}\
    Distinct receiver elements that also appear in the argument, as a `Set`.\u{1f}\
    println(listOf(1, 2, 3).intersect(listOf(2, 3, 4)))   // [2, 3]\u{1e}\
    subtract(other: Iterable<T>): Set<T>\u{1f}\
    Distinct receiver elements that do not appear in the argument, as a `Set`.\u{1f}\
    println(listOf(1, 2, 3).subtract(listOf(2)))   // [1, 3]\u{1e}\
    sorted(): List<T>\u{1f}\
    Ascending sort into a new `List` — strings lexicographically, chars by code unit, everything else numerically. There is no `sortedWith` and no in-place `sort`.\u{1f}\
    println(listOf(3, 1, 2).sorted())   // [1, 2, 3]\u{1e}\
    sortedDescending(): List<T>\u{1f}\
    Descending sort into a new `List`.\u{1f}\
    println(listOf(3, 1, 2).sortedDescending())   // [3, 2, 1]\u{1e}\
    take(n: Int): List<T>\u{1f}\
    The first `n` elements as a `List`. An oversized `n` clamps to the whole sequence; a negative one raises `IllegalArgumentException: Requested element count N is less than zero.` There is no `takeWhile` and no `takeLast`.\u{1f}\
    println(listOf(1, 2, 3).take(2))   // [1, 2]\u{1e}\
    drop(n: Int): List<T>\u{1f}\
    Everything after the first `n` elements, as a `List`. An oversized `n` yields an empty list; a negative one raises `IllegalArgumentException`. There is no `dropWhile` and no `dropLast`.\u{1f}\
    println(listOf(1, 2, 3).drop(1))   // [2, 3]\u{1e}\
    joinToString(): String\njoinToString(separator: Any): String\u{1f}\
    Renders the elements with the same stringifier `println` uses, joined by a separator that defaults to `\", \"`. Only the separator parameter exists — there is no `prefix`, `postfix`, `limit` or `transform`.\u{1f}\
    println(listOf(1, 2, 3).joinToString(\"-\"))   // 1-2-3\u{1e}\
    reversed(): List<T>\nIntRange.reversed(): IntProgression\u{1f}\
    Reverses the order. On a list, set or array the result is a reversed `List`; on a range it is instead a descending `IntProgression`, which prints in its `b downTo a step 1` form.\u{1f}\
    println(listOf(1, 2, 3).reversed())   // [3, 2, 1]\nprintln((1..3).reversed())            // 3 downTo 1 step 1";

/// The names of the chapter "Mutable Collection Members".
pub open spec fn mutable_collection_members_names() -> Seq<Seq<char>> {
    seq![
        "add"@,
        "remove"@,
        "removeAt"@,
    ]
}

/// The texts of the chapter "Mutable Collection Members".
pub const MUTABLE_COLLECTION_MEMBERS: &'static str = "MutableList.add(element: T): Boolean\nMutableSet.add(element: T): Boolean\u{1f}\
    Appends to a list, always answering `true`; on a set it inserts only when the element is new and answers whether it was. That difference in the answer is Kotlin's contract and is why one implementation serves both.\u{1f}\
    val s = mutableSetOf(1)\nprintln(s.add(1))   // false\nprintln(s.add(2))   // true\u{1e}\
    MutableList.remove(element: T): Boolean\nMutableSet.remove(element: T): Boolean\nMutableMap.remove(key: K): Boolean\u{1f}\
    Removes the first structurally equal element (or the entry under the key) and answers whether anything was removed. On a `Map` this diverges from Kotlin, which answers the removed *value* or `null`; here it is always a `Boolean`.\u{1f}\
    val xs = mutableListOf(1, 2)\nprintln(xs.remove(1))   // true\nprintln(xs)             // [2]\u{1e}\
    MutableList.removeAt(index: Int): T\u{1f}\
    Removes the element at a position and answers it. Out of range it raises `IndexOutOfBoundsException`. Lists only — a set has no positional removal.\u{1f}\
    val xs = mutableListOf(1, 2)\nprintln(xs.removeAt(0))   // 1";

/// The names of the chapter "Map Members".
pub open spec fn map_members_names() -> Seq<Seq<char>> {
    seq![
        "size"@,
        "isEmpty"@,
        "isNotEmpty"@,
        "containsKey"@,
        "get"@,
        "keys"@,
        "values"@,
        "put"@,
        "remove"@,
    ]
}

/// The texts of the chapter "Map Members".
pub const MAP_MEMBERS: &'static str = "Map.size: Int\u{1f}\
    Number of entries.\u{1f}\
    println(mapOf(\"a\" to 1, \"b\" to 2).size)   // 2\u{1e}\
    Map.isEmpty(): Boolean\u{1f}\
    True when the map has no entries.\u{1f}\
    println(emptyMap<String, Int>().isEmpty())   // true\u{1e}\
    Map.isNotEmpty(): Boolean\u{1f}\
    The negation of `isEmpty`.\u{1f}\
    println(mapOf(\"a\" to 1).isNotEmpty())   // true\u{1e}\
    Map.containsKey(key: K): Boolean\u{1f}\
    Whether a structurally equal key is present. It is a linear scan of the entry list, not a hash lookup. There is no `containsValue`.\u{1f}\
    println(mapOf(\"a\" to 1).containsKey(\"a\"))   // true\u{1e}\
    Map.get(key: K): V?\u{1f}\
    The value under a key, or `null` when the key is absent — the same lookup `m[k]` performs. It never raises. There is no `getOrDefault` or `getOrElse`.\u{1f}\
    println(mapOf(\"a\" to 1).get(\"z\"))   // null\u{1e}\
    Map.keys: List<K>\u{1f}\
    The keys in insertion order. It returns a **`List`**, not the `Set` Kotlin returns — so it prints as `[a, b]` and compares order-sensitively.\u{1f}\
    println(mapOf(\"a\" to 1, \"b\" to 2).keys)   // [a, b]\u{1e}\
    Map.values: List<V>\u{1f}\
    The values in insertion order, as a `List`. There is no `entries` member.\u{1f}\
    println(mapOf(\"a\" to 1, \"b\" to 2).values)   // [1, 2]\u{1e}\
    MutableMap.put(key: K, value: V): V?\u{1f}\
    Sets a key, appending the entry when it is new. It answers the previous value, or `null` when there was none — the same write `m[k] = v` performs.\u{1f}\
    val m = mutableMapOf(\"a\" to 1)\nprintln(m.put(\"a\", 2))   // 1\u{1e}\
    MutableMap.remove(key: K): Boolean\u{1f}\
    Drops the entry under a key. It answers a `Boolean` — whether anything was removed — where Kotlin answers the removed value or `null`.\u{1f}\
    val m = mutableMapOf(\"a\" to 1)\nprintln(m.remove(\"a\"))   // true";

/// The names of the chapter "Pair Members".
pub open spec fn pair_members_names() -> Seq<Seq<char>> {
    seq![
        "first"@,
        "second"@,
    ]
}

/// The texts of the chapter "Pair Members".
pub const PAIR_MEMBERS: &'static str = "Pair.first: A\u{1f}\
    The left half of a `Pair`. Also reachable as `component1()`, which is what destructuring uses.\u{1f}\
    println((1 to \"one\").first)   // 1\u{1e}\
    Pair.second: B\u{1f}\
    The right half of a `Pair`, also reachable as `component2()`.\u{1f}\
    println((1 to \"one\").second)   // one";

/// The names of the chapter "Numeric Members".
pub open spec fn numeric_members_names() -> Seq<Seq<char>> {
    seq![
        "plus"@,
        "minus"@,
        "times"@,
        "div"@,
        "rem"@,
        "toDouble"@,
        "toInt"@,
        "toLong"@,
        "toShort"@,
        "toByte"@,
        "toChar"@,
    ]
}

/// The texts of the chapter "Numeric Members".
pub const NUMERIC_MEMBERS: &'static str = "Int.plus(other: Int): Int\nDouble.plus(other: Double): Double\u{1f}\
    The method spelling of `+` — the form the operator has to take to be reached through a safe call, as in `count?.plus(1)`. Two integral operands wrap; any `Double` operand makes the result `Double`.\u{1f}\
    println(2.plus(3))   // 5\u{1e}\
    Int.minus(other: Int): Int\nDouble.minus(other: Double): Double\u{1f}\
    The method spelling of `-`.\u{1f}\
    println(5.minus(2))   // 3\u{1e}\
    Int.times(other: Int): Int\nDouble.times(other: Double): Double\u{1f}\
    The method spelling of `*`, wrapping on two integral operands.\u{1f}\
    println(6.times(7))   // 42\u{1e}\
    Int.div(other: Int): Int\nDouble.div(other: Double): Double\u{1f}\
    The method spelling of `/`. Two integral operands truncate toward zero and a zero divisor raises `ArithmeticException: / by zero`; a `Double` operand switches to IEEE division.\u{1f}\
    println(7.div(2))     // 3\nprintln(2.5.div(2.0)) // 1.25\u{1e}\
    Int.rem(other: Int): Int\nDouble.rem(other: Double): Double\u{1f}\
    The method spelling of `%`, taking the dividend's sign for integers and raising on a zero integral divisor.\u{1f}\
    println(7.rem(2))   // 1\u{1e}\
    Int.toDouble(): Double\nDouble.toDouble(): Double\u{1f}\
    Widens to `Double`, which is what makes a following `/` divide in IEEE rather than truncate.\u{1f}\
    println(3.toDouble())   // 3.0\u{1e}\
    Int.toInt(): Int\nLong.toInt(): Int\nDouble.toInt(): Int\nString.toInt(): Int\u{1f}\
    Narrows to 32 bits. From a `Long` that is a truncation of the low 32 bits (`2147483648L.toInt()` is `-2147483648`); from a `Double` it truncates toward zero and then saturates at the `Int` bounds; from a `String` it parses the text.\u{1f}\
    println(3.9.toInt())            // 3\nprintln(2147483648L.toInt())    // -2147483648\u{1e}\
    Int.toLong(): Long\nDouble.toLong(): Long\nString.toLong(): Long\u{1f}\
    Widens to 64 bits, which stops the surrounding arithmetic from being narrowed back to `Int`. From a `Double` it truncates toward zero and saturates at the `Long` bounds.\u{1f}\
    println(3.9.toLong())                // 3\nprintln(2147483647.toLong() + 1L)    // 2147483648\u{1e}\
    Int.toShort(): Short\u{1f}\
    Truncates to the low 16 bits, signed — so `70000.toShort()` is `4464`. The result promotes back to `Int` for arithmetic, as Kotlin's does.\u{1f}\
    println(32768.toShort())   // -32768\u{1e}\
    Int.toByte(): Byte\u{1f}\
    Truncates to the low 8 bits, signed — so `200.toByte()` is `-56`. The result promotes back to `Int` for arithmetic, as Kotlin's does.\u{1f}\
    println(200.toByte())   // -56\u{1e}\
    Int.toChar(): Char\u{1f}\
    The `Char` for the low 16 bits of the receiver — the inverse of `Char.code`.\u{1f}\
    println(65.toChar())   // A";

/// The names of the chapter "Universal & Generated Members".
pub open spec fn universal_generated_members_names() -> Seq<Seq<char>> {
    seq![
        "toString"@,
        "hashCode"@,
        "equals"@,
        "componentN"@,
        "copy"@,
        "message"@,
    ]
}

/// The texts of the chapter "Universal & Generated Members".
pub const UNIVERSAL_GENERATED_MEMBERS: &'static str = "Any.toString(): String\u{1f}\
    Renders any receiver as Kotlin would print it: a `Double` keeps its `.0`, `null` reads as `null`, a `List` as `[a, b]`, a `Map` as `{k=v}`, an array as its JVM descriptor, and a data class as `Name(p=v, …)`. In a program that overrides `toString`, calls route through a re-entrant display builtin so the override is what runs.\u{1f}\
    println(listOf(1, 2).toString())   // [1, 2]\u{1e}\
    Any.hashCode(): Int\u{1f}\
    An order-independent structural hash over a heap object. Two structurally equal values hash equal — the property a data class's generated `hashCode` needs — but the numbers themselves are not the JVM's.\u{1f}\
    data class Pt(val x: Int, val y: Int)\nfun main() { println(Pt(1, 2).hashCode() == Pt(1, 2).hashCode()) }   // true\u{1e}\
    Any.equals(other: Any?): Boolean\u{1f}\
    The method spelling of `==`, with the same structural rules — including a data class comparing only its primary-constructor properties and an `Array` comparing by identity.\u{1f}\
    println(listOf(1).equals(listOf(1)))   // true\u{1e}\
    component1(): T  component2(): T  …\u{1f}\
    Positional accessors, 1-based, used by `val (a, b) = expr` destructuring. Defined on a data-class instance (over its primary-constructor properties, skipping inherited fields), a `List`, a `Set`, an `Array` and a `Pair`. Destructuring works in a `val` declaration only — a `for ((k, v) in …)` header is a parse error here.\u{1f}\
    data class Pt(val x: Int, val y: Int)\nfun main() { val (a, b) = Pt(1, 2); println(\"$a $b\") }   // 1 2\u{1e}\
    copy(vararg overrides: Any): T\u{1f}\
    A data class's generated clone-with-overrides. The arguments are **positional**, overriding the leading properties in declaration order — kotlinrs has no named arguments, so `p.copy(y = 9)` is not available; `p.copy(9)` overrides the first property. It calls the primary constructor, so a data class under a superclass re-runs its `: Super(args)` header.\u{1f}\
    data class Pt(val x: Int, val y: Int)\nfun main() { println(Pt(1, 2).copy(9)) }   // Pt(x=9, y=2)\u{1e}\
    Throwable.message: String?\u{1f}\
    The message a throwable was constructed with, or `null` when it was constructed without one.\u{1f}\
    try { 1 / 0 } catch (e: Exception) { println(e.message) }   // / by zero";

/// The names of the chapter "Higher-Order Collection Functions".
pub open spec fn higher_order_collection_functions_names() -> Seq<Seq<char>> {
    seq![
        "map"@,
        "mapIndexed"@,
        "flatMap"@,
        "filter"@,
        "filterNot"@,
        "forEach"@,
        "fold"@,
        "reduce"@,
        "any"@,
        "all"@,
        "none"@,
        "count"@,
        "sumOf"@,
        "maxByOrNull"@,
        "minByOrNull"@,
        "sortedBy"@,
        "sortedByDescending"@,
        "associate"@,
        "associateBy"@,
        "associateWith"@,
        "groupBy"@,
    ]
}

/// The texts of the chapter "Higher-Order Collection Functions".
pub const HIGHER_ORDER_COLLECTION_FUNCTIONS: &'static str = "map(transform: (T) -> R): List<R>\u{1f}\
    Applies the lambda to every element and collects the results into a `List`. The receiver may be a `List`, `Set`, `Array` or range — a range materializes first, which is what makes `(1..3).map { … }` work. A `Map` or `Pair` receiver is an unresolved reference.\u{1f}\
    println(listOf(1, 2, 3).map { it * 2 })   // [2, 4, 6]\u{1e}\
    mapIndexed(transform: (Int, T) -> R): List<R>\u{1f}\
    Like `map`, but the lambda takes the element's index first and the element second. There is no `forEachIndexed` or `filterIndexed`.\u{1f}\
    println(listOf(1, 2, 3).mapIndexed { i, v -> i * v })   // [0, 2, 6]\u{1e}\
    flatMap(transform: (T) -> Iterable<R>): List<R>\u{1f}\
    Applies the lambda to every element and splices each iterable result into one flat `List`. A result that is not iterable contributes nothing rather than raising.\u{1f}\
    println(listOf(1, 2).flatMap { listOf(it, it) })   // [1, 1, 2, 2]\u{1e}\
    filter(predicate: (T) -> Boolean): List<T>\u{1f}\
    Keeps the elements whose predicate returns exactly `true`; a `null` or non-Boolean result counts as false. The result is always a `List`, even from a `Set` receiver.\u{1f}\
    println(listOf(1, 2, 3, 4).filter { it % 2 == 0 })   // [2, 4]\u{1e}\
    filterNot(predicate: (T) -> Boolean): List<T>\u{1f}\
    Keeps the elements whose predicate does *not* hold. There is no `filterNotNull` or `filterIsInstance`.\u{1f}\
    println(listOf(1, 2, 3).filterNot { it > 2 })   // [1, 2]\u{1e}\
    forEach(action: (T) -> Unit): Unit\u{1f}\
    Runs the lambda once per element for its side effect and yields `Unit`.\u{1f}\
    listOf(1, 2).forEach { print(it) }   // 12\u{1e}\
    fold(initial: R, operation: (R, T) -> R): R\u{1f}\
    Threads an accumulator through the sequence left to right, starting from the given initial value. The lambda takes the accumulator first. It is the one higher-order function here that takes a non-lambda argument as well.\u{1f}\
    println(listOf(1, 2, 3).fold(0) { acc, n -> acc + n })   // 6\u{1e}\
    reduce(operation: (T, T) -> T): T\u{1f}\
    Like `fold` but seeded with the first element instead of an explicit initial. An empty receiver raises `UnsupportedOperationException: Empty collection can't be reduced.`\u{1f}\
    println(listOf(1, 2, 3).reduce { a, b -> a * b })   // 6\u{1e}\
    any(predicate: (T) -> Boolean): Boolean\u{1f}\
    True as soon as one element satisfies the predicate, short-circuiting on the first hit. The no-argument `any()` overload is not implemented — use `isNotEmpty()`.\u{1f}\
    println(listOf(1, 2, 3).any { it > 2 })   // true\u{1e}\
    all(predicate: (T) -> Boolean): Boolean\u{1f}\
    True when every element satisfies the predicate, short-circuiting on the first failure. Vacuously true for an empty receiver.\u{1f}\
    println(listOf(2, 4).all { it % 2 == 0 })   // true\u{1e}\
    none(predicate: (T) -> Boolean): Boolean\u{1f}\
    True when no element satisfies the predicate, short-circuiting on the first hit.\u{1f}\
    println(listOf(1, 2).none { it > 5 })   // true\u{1e}\
    count(predicate: (T) -> Boolean): Int\u{1f}\
    How many elements satisfy the predicate. Called with no argument, `count()` is instead the sequence member that reports `size`.\u{1f}\
    println(listOf(1, 2, 3).count { it > 1 })   // 2\u{1e}\
    sumOf(selector: (T) -> Int): Int\nsumOf(selector: (T) -> Double): Double\u{1f}\
    Sums the lambda's results, yielding an `Int` when every one is integral and a `Double` otherwise — the same rule `sum()` uses.\u{1f}\
    println(listOf(\"ab\", \"c\").sumOf { it.length })   // 3\u{1e}\
    maxByOrNull(selector: (T) -> R): T?\u{1f}\
    The element whose selector value is largest, or `null` when the receiver is empty. Ties keep the first such element. The selector runs once per element.\u{1f}\
    println(listOf(\"a\", \"abc\").maxByOrNull { it.length })   // abc\u{1e}\
    minByOrNull(selector: (T) -> R): T?\u{1f}\
    The element whose selector value is smallest, or `null` on an empty receiver, keeping the first of any tie.\u{1f}\
    println(listOf(\"abc\", \"a\").minByOrNull { it.length })   // a\u{1e}\
    sortedBy(selector: (T) -> R): List<T>\u{1f}\
    Ascending sort by the selector's value, evaluated once per element and stable — equal keys keep their input order.\u{1f}\
    println(listOf(\"abc\", \"a\").sortedBy { it.length })   // [a, abc]\u{1e}\
    sortedByDescending(selector: (T) -> R): List<T>\u{1f}\
    Descending sort by the selector's value. The comparison is flipped rather than the result reversed, so ties still come out in input order as Kotlin requires.\u{1f}\
    println(listOf(\"a\", \"abc\").sortedByDescending { it.length })   // [abc, a]\u{1e}\
    associate(transform: (T) -> Pair<K, V>): Map<K, V>\u{1f}\
    Builds a `Map` from the `Pair` each lambda call returns. A lambda result that is not a `Pair` raises `kotlin: associate expects a Pair`. Later duplicate keys overwrite earlier ones.\u{1f}\
    println(listOf(1, 2).associate { it to it * it })   // {1=1, 2=4}\u{1e}\
    associateBy(keySelector: (T) -> K): Map<K, T>\u{1f}\
    Builds a `Map` whose keys are the lambda's results and whose values are the elements — the mirror image of `associateWith`.\u{1f}\
    println(listOf(\"ab\", \"c\").associateBy { it.length })   // {2=ab, 1=c}\u{1e}\
    associateWith(valueSelector: (T) -> V): Map<T, V>\u{1f}\
    Builds a `Map` keyed by the elements, with the lambda's results as the values.\u{1f}\
    println(listOf(1, 2, 3).associateWith { it * 2 })   // {1=2, 2=4, 3=6}\u{1e}\
    groupBy(keySelector: (T) -> K): Map<K, List<T>>\u{1f}\
    Buckets the elements by the lambda's result. Keys appear in first-encounter order and each bucket keeps its elements in input order. There is no `groupingBy`.\u{1f}\
    println(listOf(1, 2, 3, 4).groupBy { it % 2 })   // {1=[1, 3], 0=[2, 4]}";

/// The names of the chapter "Scope Functions".
pub open spec fn scope_functions_names() -> Seq<Seq<char>> {
    seq![
        "let"@,
        "also"@,
        "takeIf"@,
        "takeUnless"@,
        "run"@,
        "apply"@,
        "with"@,
    ]
}

/// The texts of the chapter "Scope Functions".
pub const SCOPE_FUNCTIONS: &'static str = "T.let(block: (T) -> R): R\u{1f}\
    Runs the block with the receiver bound to `it` and yields the block's result. Works on any receiver, not just a collection. Paired with a safe call (`x?.let { … }`) it is the null-guard idiom.\u{1f}\
    println(listOf(1, 2).let { it.size })   // 2\u{1e}\
    T.also(block: (T) -> Unit): T\u{1f}\
    Runs the block with the receiver bound to `it` for its side effect and yields the **receiver**, not the block's result — which is what makes it chainable mid-expression.\u{1f}\
    println(listOf(1, 2).also { print(it.size) })   // 2[1, 2]\u{1e}\
    T.takeIf(predicate: (T) -> Boolean): T?\u{1f}\
    Yields the receiver when the predicate returns `true`, and `null` otherwise.\u{1f}\
    println(5.takeIf { it > 3 })   // 5\nprintln(2.takeIf { it > 3 })   // null\u{1e}\
    T.takeUnless(predicate: (T) -> Boolean): T?\u{1f}\
    The negation of `takeIf`: yields the receiver when the predicate returns `false`, and `null` otherwise.\u{1f}\
    println(5.takeUnless { it > 3 })   // null\nprintln(2.takeUnless { it > 3 })   // 2\u{1e}\
    T.run(block: T.() -> R): R\nrun(block: () -> R): R\u{1f}\
    Runs the block with the receiver bound to **`this`** — so the receiver's members are reachable without a qualifier — and yields the block's result. The receiverless form `run { … }` is a block evaluated on the spot for its value.\u{1f}\
    println(\"abc\".run { length })   // 3\nprintln(run { 1 + 2 })         // 3\u{1e}\
    T.apply(block: T.() -> Unit): T\u{1f}\
    Runs the block with the receiver bound to **`this`** for its side effect and yields the **receiver** — the configure-then-return idiom. `also` is the same shape with the receiver as `it` instead.\u{1f}\
    class Box(var w: Int)\nprintln(Box(1).apply { w = 5 }.w)   // 5\u{1e}\
    with(receiver: T, block: T.() -> R): R\u{1f}\
    The free-function spelling of `run`: the argument becomes the block's `this`, and the block's result is the value.\u{1f}\
    println(with(\"hello\") { uppercase() + length })   // HELLO5";

/// The names of the chapter "Result".
pub open spec fn result_names() -> Seq<Seq<char>> {
    seq![
        "runCatching"@,
        "getOrNull"@,
        "getOrElse"@,
        "isSuccess"@,
    ]
}

/// The texts of the chapter "Result".
pub const RESULT: &'static str = "runCatching(block: () -> T): Result<T>\u{1f}\
    Runs the block and packages its outcome: `Success(v)` for a normal return, `Failure(<throwable>)` for a `throw` — including the runtime faults this frontend raises, so `runCatching { 1 / 0 }` is a failure rather than a halt.\u{1f}\
    println(runCatching { 6 / 2 })   // Success(3)\nprintln(runCatching { 1 / 0 }.isFailure)   // true\u{1e}\
    Result<T>.getOrNull(): T?\u{1f}\
    The success value, or `null` on failure. `exceptionOrNull()` is its mirror — the throwable, or `null` on success.\u{1f}\
    println(runCatching { 6 / 2 }.getOrNull())   // 3\nprintln(runCatching { 1 / 0 }.getOrNull())   // null\u{1e}\
    Result<T>.getOrElse(onFailure: (Throwable) -> T): T\u{1f}\
    The success value, or the block applied to the throwable. The block does not run at all on success.\u{1f}\
    println(runCatching { 1 / 0 }.getOrElse { -1 })   // -1\u{1e}\
    Result<T>.isSuccess: Boolean\nResult<T>.isFailure: Boolean\u{1f}\
    Which branch of the union the result holds. `onSuccess`/`onFailure` run a block for the matching branch and yield the result unchanged; `map` transforms a success and passes a failure through.\u{1f}\
    println(runCatching { 6 / 2 }.isSuccess)   // true\nprintln(runCatching { 6 / 2 }.map { it + 1 })   // Success(4)";

/// The further names of the chapter "Keywords & Declarations".
pub open spec fn more_keywords_declarations_names() -> Seq<Seq<char>> {
    seq![
        "companion"@,
        "vararg"@,
        "by"@,
    ]
}

/// The further texts of the chapter "Keywords & Declarations".
pub const MORE_KEYWORDS_DECLARATIONS: &'static str = "class C { companion object { val K = 7; fun of(…): C = … } }\u{1f}\
    Declares the class's singleton companion. Its properties and functions are reached through the class name (`C.K`, `C.of(…)`) and, from inside the class, without any qualifier. One per class; a named companion is reached the same way.\u{1f}\
    class C { companion object { val K = 7 } }\nprintln(C.K)   // 7\u{1e}\
    fun f(vararg xs: T)\u{1f}\
    Collects the call's trailing positional arguments into an array of the declared element type, which the body iterates or measures like any array. Supported as the last parameter.\u{1f}\
    fun total(vararg xs: Int): Int { var t = 0; for (x in xs) t += x; return t }\nprintln(total(1, 2, 3))   // 6\u{1e}\
    val name: T by lazy { … }\u{1f}\
    Property delegation. Only `by lazy` is supported: the block runs at the FIRST read and its value is cached, so an initializer with an effect fires at use rather than at startup. `lazy` requires `val`; any other delegate is a compile error.\u{1f}\
    val z: Int by lazy { println(\"forcing\"); 42 }\nfun main() { println(\"before\"); println(z); println(z) }";

/// The further names of the chapter "Operators".
pub open spec fn more_operators_names() -> Seq<Seq<char>> {
    seq![
        "as"@,
    ]
}

/// The further texts of the chapter "Operators".
pub const MORE_OPERATORS: &'static str = "value as T\nvalue as? T\u{1f}\
    A checked cast. The runtime value is unchanged — what the cast supplies is the static type `T`, which then decides integer width and `/` dispatch downstream. A mismatch throws `ClassCastException`; the safe form `as?` yields `null` instead. `Int` and `Long` share one runtime representation here, so a cast cannot tell them apart.\u{1f}\
    val a: Any = 5\nprintln((a as Int) / 2)   // 2\nprintln(a as? String)     // null";

/// One entry.
#[derive(Debug, PartialEq, Eq)]
pub struct Entry {
    pub name: String,
    pub chapter: String,
    pub signature: String,
    pub doc: String,
    pub example: String,
}

/// An [`Entry`] as a mathematical value.
#[verifier::ext_equal]
pub struct EntryView {
    pub name: Seq<char>,
    pub chapter: Seq<char>,
    pub signature: Seq<char>,
    pub doc: Seq<char>,
    pub example: Seq<char>,
}

impl View for Entry {
    type V = EntryView;

    open spec fn view(&self) -> EntryView {
        EntryView {
            name: self.name@,
            chapter: self.chapter@,
            signature: self.signature@,
            doc: self.doc@,
            example: self.example@,
        }
    }
}

/// Entries as mathematical values.
pub open spec fn entries_view(v: Seq<Entry>) -> Seq<EntryView> {
    v.map_values(|e: Entry| e@)
}

/// The entry of a name and what a record of the chapter says of it.
pub open spec fn entry_of(chapter: Seq<char>, name: Seq<char>, record: Seq<char>) -> EntryView {
    let ps = pieces(record, "\u{1f}"@);
    EntryView {
        name,
        chapter,
        signature: piece(ps, 0),
        doc: piece(ps, 1),
        example: piece(ps, 2),
    }
}

/// The entries of a chapter, one for each of its names.
pub open spec fn chapter_entries(
    chapter: Seq<char>,
    names: Seq<Seq<char>>,
    text: Seq<char>,
) -> Seq<EntryView> {
    Seq::new(
        names.len(),
        |i: int| entry_of(chapter, names[i], piece(pieces(text, "\u{1e}"@), i)),
    )
}

/// The chapters in their order: title, names and text.
pub open spec fn chapters() -> Seq<(Seq<char>, Seq<Seq<char>>, Seq<char>)> {
    seq![
        ("Keywords & Declarations"@, keywords_declarations_names(), KEYWORDS_DECLARATIONS@),
        ("Operators"@, operators_names(), OPERATORS@),
        ("Types"@, types_names(), TYPES@),
        ("Builtin Functions"@, builtin_functions_names(), BUILTIN_FUNCTIONS@),
        ("Math"@, math_names(), MATH@),
        ("Throwables"@, throwables_names(), THROWABLES@),
        ("String Members"@, string_members_names(), STRING_MEMBERS@),
        ("Char Members"@, char_members_names(), CHAR_MEMBERS@),
        ("Sequence Members"@, sequence_members_names(), SEQUENCE_MEMBERS@),
        ("Mutable Collection Members"@, mutable_collection_members_names(), MUTABLE_COLLECTION_MEMBERS@),
        ("Map Members"@, map_members_names(), MAP_MEMBERS@),
        ("Pair Members"@, pair_members_names(), PAIR_MEMBERS@),
        ("Numeric Members"@, numeric_members_names(), NUMERIC_MEMBERS@),
        ("Universal & Generated Members"@, universal_generated_members_names(), UNIVERSAL_GENERATED_MEMBERS@),
        ("Higher-Order Collection Functions"@, higher_order_collection_functions_names(), HIGHER_ORDER_COLLECTION_FUNCTIONS@),
        ("Scope Functions"@, scope_functions_names(), SCOPE_FUNCTIONS@),
        ("Result"@, result_names(), RESULT@),
        ("Keywords & Declarations"@, more_keywords_declarations_names(), MORE_KEYWORDS_DECLARATIONS@),
        ("Operators"@, more_operators_names(), MORE_OPERATORS@),
    ]
}

/// The entries of the first `n` chapters.
pub open spec fn entries_to(n: int) -> Seq<EntryView>
    decreases n,
{
    if n <= 0 || n > chapters().len() {
        Seq::empty()
    } else {
        let (title, names, text) = chapters()[n - 1];
        entries_to(n - 1) + chapter_entries(title, names, text)
    }
}

/// All entries, chapter by chapter.
pub open spec fn all_entries() -> Seq<EntryView> {
    entries_to(chapters().len() as int)
}

fn field(ps: &Vec<String>, i: usize) -> (s: String)
    ensures
        s@ == piece(texts_view(ps@), i as int),
{
    if i < ps.len() {
        ps[i].as_str().to_owned()
    } else {
        let s: String = String::new();
        assert(s@ =~= Seq::empty());
        s
    }
}

fn read_entry(chapter: &str, name: &str, record: &str) -> (e: Entry)
    ensures
        e@ == entry_of(chapter@, name@, record@),
{
    let ps: Vec<String> = split(&chars_of_str(record), &chars_of_str("\u{1f}"));
    Entry {
        name: name.to_owned(),
        chapter: chapter.to_owned(),
        signature: field(&ps, 0),
        doc: field(&ps, 1),
        example: field(&ps, 2),
    }
}

/// Names as mathematical values.
pub open spec fn names_view(names: Seq<&'static str>) -> Seq<Seq<char>> {
    names.map_values(|s: &'static str| s@)
}

fn add_chapter(out: &mut Vec<Entry>, chapter: &str, names: &Vec<&'static str>, text: &str)
    ensures
        entries_view(final(out)@) == entries_view(old(out)@) + chapter_entries(
            chapter@,
            names_view(names@),
            text@,
        ),
{
    let records: Vec<String> = split(&chars_of_str(text), &chars_of_str("\u{1e}"));
    let ghost before = entries_view(out@);
    let ghost want = chapter_entries(chapter@, names_view(names@), text@);
    let mut i: usize = 0;
    assert(before + want.take(0) =~= before);
    while i < names.len()
        invariant
            i <= names@.len(),
            want.len() == names@.len(),
            want == chapter_entries(chapter@, names_view(names@), text@),
            texts_view(records@) == pieces(text@, "\u{1e}"@),
            entries_view(out@) == before + want.take(i as int),
        decreases names.len() - i,
    {
        let ghost sofar = out@;
        let record: String = field(&records, i);
        let e: Entry = read_entry(chapter, names[i], record.as_str());
        assert(names_view(names@)[i as int] == names@[i as int]@);
        assert(want[i as int] == e@);
        out.push(e);
        assert(entries_view(out@) =~= entries_view(sofar).push(want[i as int]));
        assert(before + want.take(i + 1) =~= (before + want.take(i as int)).push(want[i as int]));
        i = i + 1;
    }
    assert(want.take(i as int) =~= want);
}

fn add_keywords_declarations(out: &mut Vec<Entry>)
    ensures
        entries_view(final(out)@) == entries_view(old(out)@) + chapter_entries(
            "Keywords & Declarations"@,
            keywords_declarations_names(),
            KEYWORDS_DECLARATIONS@,
        ),
{
    let names: Vec<&'static str> = vec![
        "fun",
        "val",
        "var",
        "if",
        "else",
        "while",
        "for",
        "in",
        "return",
        "until",
        "downTo",
        "step",
        "when",
        "is",
        "class",
        "interface",
        "object",
        "data",
        "open",
        "override",
        "abstract",
        "sealed",
        "final",
        "private",
        "inner",
        "super",
        "this",
        "it",
        "break",
        "continue",
        "try",
        "catch",
        "finally",
        "throw",
        "null",
        "true",
        "false",
        "import",
        "package",
        "as",
        "rust",
    ];
    assert(names_view(names@) =~= keywords_declarations_names());
    add_chapter(out, "Keywords & Declarations", &names, KEYWORDS_DECLARATIONS);
}

fn add_operators(out: &mut Vec<Entry>)
    ensures
        entries_view(final(out)@) == entries_view(old(out)@) + chapter_entries(
            "Operators"@,
            operators_names(),
            OPERATORS@,
        ),
{
    let names: Vec<&'static str> = vec![
        "+",
        "-",
        "*",
        "/",
        "%",
        "=",
        "+=",
        "-=",
        "*=",
        "/=",
        "%=",
        "++",
        "--",
        "==",
        "!=",
        "<",
        ">",
        "<=",
        ">=",
        "&&",
        "||",
        "!",
        "..",
        "?.",
        "?:",
        "!!",
        "?",
        "[]",
        "[]=",
        "->",
        "@",
        "$",
        "to",
        "!in",
        "!is",
        ".",
        ":",
        ";",
    ];
    assert(names_view(names@) =~= operators_names());
    add_chapter(out, "Operators", &names, OPERATORS);
}

fn add_types(out: &mut Vec<Entry>)
    ensures
        entries_view(final(out)@) == entries_view(old(out)@) + chapter_entries(
            "Types"@,
            types_names(),
            TYPES@,
        ),
{
    let names: Vec<&'static str> = vec![
        "Int",
        "Long",
        "Double",
        "Float",
        "Boolean",
        "Char",
        "String",
        "Unit",
        "Any",
        "List",
        "MutableList",
        "Set",
        "MutableSet",
        "Map",
        "MutableMap",
        "Pair",
        "Array",
        "IntArray",
        "IntRange",
        "Nothing",
    ];
    assert(names_view(names@) =~= types_names());
    add_chapter(out, "Types", &names, TYPES);
}

fn add_builtin_functions(out: &mut Vec<Entry>)
    ensures
        entries_view(final(out)@) == entries_view(old(out)@) + chapter_entries(
            "Builtin Functions"@,
            builtin_functions_names(),
            BUILTIN_FUNCTIONS@,
        ),
{
    let names: Vec<&'static str> = vec![
        "println",
        "print",
        "listOf",
        "mutableListOf",
        "arrayListOf",
        "emptyList",
        "setOf",
        "mutableSetOf",
        "hashSetOf",
        "linkedSetOf",
        "sortedSetOf",
        "emptySet",
        "mapOf",
        "mutableMapOf",
        "hashMapOf",
        "emptyMap",
        "arrayOf",
        "intArrayOf",
        "doubleArrayOf",
        "booleanArrayOf",
        "charArrayOf",
        "IntArray",
        "DoubleArray",
        "BooleanArray",
        "CharArray",
        "Array",
    ];
    assert(names_view(names@) =~= builtin_functions_names());
    add_chapter(out, "Builtin Functions", &names, BUILTIN_FUNCTIONS);
}

fn add_math(out: &mut Vec<Entry>)
    ensures
        entries_view(final(out)@) == entries_view(old(out)@) + chapter_entries(
            "Math"@,
            math_names(),
            MATH@,
        ),
{
    let names: Vec<&'static str> = vec![
        "abs",
        "sqrt",
        "floor",
        "ceil",
        "round",
        "max",
        "min",
        "maxOf",
        "minOf",
        "PI",
        "E",
        "Math",
        "Math.round",
    ];
    assert(names_view(names@) =~= math_names());
    add_chapter(out, "Math", &names, MATH);
}

fn add_throwables(out: &mut Vec<Entry>)
    ensures
        entries_view(final(out)@) == entries_view(old(out)@) + chapter_entries(
            "Throwables"@,
            throwables_names(),
            THROWABLES@,
        ),
{
    let names: Vec<&'static str> = vec![
        "Throwable",
        "Exception",
        "Error",
        "RuntimeException",
        "ArithmeticException",
        "IllegalArgumentException",
        "IllegalStateException",
        "NumberFormatException",
        "IndexOutOfBoundsException",
        "StringIndexOutOfBoundsException",
        "ArrayIndexOutOfBoundsException",
        "NullPointerException",
        "ClassCastException",
        "UnsupportedOperationException",
        "NegativeArraySizeException",
        "NoSuchElementException",
    ];
    assert(names_view(names@) =~= throwables_names());
    add_chapter(out, "Throwables", &names, THROWABLES);
}

fn add_string_members(out: &mut Vec<Entry>)
    ensures
        entries_view(final(out)@) == entries_view(old(out)@) + chapter_entries(
            "String Members"@,
            string_members_names(),
            STRING_MEMBERS@,
        ),
{
    let names: Vec<&'static str> = vec![
        "length",
        "uppercase",
        "toUpperCase",
        "lowercase",
        "toLowerCase",
        "trim",
        "isEmpty",
        "isNotEmpty",
        "isBlank",
        "isNotBlank",
        "contains",
        "startsWith",
        "endsWith",
        "plus",
        "replace",
        "repeat",
        "indexOf",
        "substring",
    ];
    assert(names_view(names@) =~= string_members_names());
    add_chapter(out, "String Members", &names, STRING_MEMBERS);
}

fn add_char_members(out: &mut Vec<Entry>)
    ensures
        entries_view(final(out)@) == entries_view(old(out)@) + chapter_entries(
            "Char Members"@,
            char_members_names(),
            CHAR_MEMBERS@,
        ),
{
    let names: Vec<&'static str> = vec![
        "code",
        "digitToInt",
        "isDigit",
        "isLetter",
        "isLetterOrDigit",
        "isWhitespace",
        "isUpperCase",
        "isLowerCase",
        "uppercaseChar",
        "lowercaseChar",
        "uppercase",
        "lowercase",
        "compareTo",
        "plus",
        "minus",
        "equals",
        "hashCode",
        "toString",
    ];
    assert(names_view(names@) =~= char_members_names());
    add_chapter(out, "Char Members", &names, CHAR_MEMBERS);
}

fn add_sequence_members(out: &mut Vec<Entry>)
    ensures
        entries_view(final(out)@) == entries_view(old(out)@) + chapter_entries(
            "Sequence Members"@,
            sequence_members_names(),
            SEQUENCE_MEMBERS@,
        ),
{
    let names: Vec<&'static str> = vec![
        "size",
        "count",
        "isEmpty",
        "isNotEmpty",
        "first",
        "last",
        "get",
        "contains",
        "indexOf",
        "sum",
        "average",
        "max",
        "min",
        "toList",
        "toMutableList",
        "toTypedArray",
        "asList",
        "toSet",
        "toMutableSet",
        "toHashSet",
        "distinct",
        "union",
        "intersect",
        "subtract",
        "sorted",
        "sortedDescending",
        "take",
        "drop",
        "joinToString",
        "reversed",
    ];
    assert(names_view(names@) =~= sequence_members_names());
    add_chapter(out, "Sequence Members", &names, SEQUENCE_MEMBERS);
}

fn add_mutable_collection_members(out: &mut Vec<Entry>)
    ensures
        entries_view(final(out)@) == entries_view(old(out)@) + chapter_entries(
            "Mutable Collection Members"@,
            mutable_collection_members_names(),
            MUTABLE_COLLECTION_MEMBERS@,
        ),
{
    let names: Vec<&'static str> = vec![
        "add",
        "remove",
        "removeAt",
    ];
    assert(names_view(names@) =~= mutable_collection_members_names());
    add_chapter(out, "Mutable Collection Members", &names, MUTABLE_COLLECTION_MEMBERS);
}

fn add_map_members(out: &mut Vec<Entry>)
    ensures
        entries_view(final(out)@) == entries_view(old(out)@) + chapter_entries(
            "Map Members"@,
            map_members_names(),
            MAP_MEMBERS@,
        ),
{
    let names: Vec<&'static str> = vec![
        "size",
        "isEmpty",
        "isNotEmpty",
        "containsKey",
        "get",
        "keys",
        "values",
        "put",
        "remove",
    ];
    assert(names_view(names@) =~= map_members_names());
    add_chapter(out, "Map Members", &names, MAP_MEMBERS);
}

fn add_pair_members(out: &mut Vec<Entry>)
    ensures
        entries_view(final(out)@) == entries_view(old(out)@) + chapter_entries(
            "Pair Members"@,
            pair_members_names(),
            PAIR_MEMBERS@,
        ),
{
    let names: Vec<&'static str> = vec![
        "first",
        "second",
    ];
    assert(names_view(names@) =~= pair_members_names());
    add_chapter(out, "Pair Members", &names, PAIR_MEMBERS);
}

fn add_numeric_members(out: &mut Vec<Entry>)
    ensures
        entries_view(final(out)@) == entries_view(old(out)@) + chapter_entries(
            "Numeric Members"@,
            numeric_members_names(),
            NUMERIC_MEMBERS@,
        ),
{
    let names: Vec<&'static str> = vec![
        "plus",
        "minus",
        "times",
        "div",
        "rem",
        "toDouble",
        "toInt",
        "toLong",
        "toShort",
        "toByte",
        "toChar",
    ];
    assert(names_view(names@) =~= numeric_members_names());
    add_chapter(out, "Numeric Members", &names, NUMERIC_MEMBERS);
}

fn add_universal_generated_members(out: &mut Vec<Entry>)
    ensures
        entries_view(final(out)@) == entries_view(old(out)@) + chapter_entries(
            "Universal & Generated Members"@,
            universal_generated_members_names(),
            UNIVERSAL_GENERATED_MEMBERS@,
        ),
{
    let names: Vec<&'static str> = vec![
        "toString",
        "hashCode",
        "equals",
        "componentN",
        "copy",
        "message",
    ];
    assert(names_view(names@) =~= universal_generated_members_names());
    add_chapter(out, "Universal & Generated Members", &names, UNIVERSAL_GENERATED_MEMBERS);
}

fn add_higher_order_collection_functions(out: &mut Vec<Entry>)
    ensures
        entries_view(final(out)@) == entries_view(old(out)@) + chapter_entries(
            "Higher-Order Collection Functions"@,
            higher_order_collection_functions_names(),
            HIGHER_ORDER_COLLECTION_FUNCTIONS@,
        ),
{
    let names: Vec<&'static str> = vec![
        "map",
        "mapIndexed",
        "flatMap",
        "filter",
        "filterNot",
        "forEach",
        "fold",
        "reduce",
        "any",
        "all",
        "none",
        "count",
        "sumOf",
        "maxByOrNull",
        "minByOrNull",
        "sortedBy",
        "sortedByDescending",
        "associate",
        "associateBy",
        "associateWith",
        "groupBy",
    ];
    assert(names_view(names@) =~= higher_order_collection_functions_names());
    add_chapter(out, "Higher-Order Collection Functions", &names, HIGHER_ORDER_COLLECTION_FUNCTIONS);
}

fn add_scope_functions(out: &mut Vec<Entry>)
    ensures
        entries_view(final(out)@) == entries_view(old(out)@) + chapter_entries(
            "Scope Functions"@,
            scope_functions_names(),
            SCOPE_FUNCTIONS@,
        ),
{
    let names: Vec<&'static str> = vec![
        "let",
        "also",
        "takeIf",
        "takeUnless",
        "run",
        "apply",
        "with",
    ];
    assert(names_view(names@) =~= scope_functions_names());
    add_chapter(out, "Scope Functions", &names, SCOPE_FUNCTIONS);
}

fn add_result(out: &mut Vec<Entry>)
    ensures
        entries_view(final(out)@) == entries_view(old(out)@) + chapter_entries(
            "Result"@,
            result_names(),
            RESULT@,
        ),
{
    let names: Vec<&'static str> = vec![
        "runCatching",
        "getOrNull",
        "getOrElse",
        "isSuccess",
    ];
    assert(names_view(names@) =~= result_names());
    add_chapter(out, "Result", &names, RESULT);
}

fn add_more_keywords_declarations(out: &mut Vec<Entry>)
    ensures
        entries_view(final(out)@) == entries_view(old(out)@) + chapter_entries(
            "Keywords & Declarations"@,
            more_keywords_declarations_names(),
            MORE_KEYWORDS_DECLARATIONS@,
        ),
{
    let names: Vec<&'static str> = vec![
        "companion",
        "vararg",
        "by",
    ];
    assert(names_view(names@) =~= more_keywords_declarations_names());
    add_chapter(out, "Keywords & Declarations", &names, MORE_KEYWORDS_DECLARATIONS);
}

fn add_more_operators(out: &mut Vec<Entry>)
    ensures
        entries_view(final(out)@) == entries_view(old(out)@) + chapter_entries(
            "Operators"@,
            more_operators_names(),
            MORE_OPERATORS@,
        ),
{
    let names: Vec<&'static str> = vec![
        "as",
    ];
    assert(names_view(names@) =~= more_operators_names());
    add_chapter(out, "Operators", &names, MORE_OPERATORS);
}

/// The language reference, chapter by chapter.
pub fn corpus() -> (r: Vec<Entry>)
    ensures
        entries_view(r@) == all_entries(),
{
    let mut r: Vec<Entry> = Vec::new();
    assert(entries_view(r@) =~= entries_to(0));
    add_keywords_declarations(&mut r);
    assert(entries_view(r@) == entries_to(1));
    add_operators(&mut r);
    assert(entries_view(r@) == entries_to(2));
    add_types(&mut r);
    assert(entries_view(r@) == entries_to(3));
    add_builtin_functions(&mut r);
    assert(entries_view(r@) == entries_to(4));
    add_math(&mut r);
    assert(entries_view(r@) == entries_to(5));
    add_throwables(&mut r);
    assert(entries_view(r@) == entries_to(6));
    add_string_members(&mut r);
    assert(entries_view(r@) == entries_to(7));
    add_char_members(&mut r);
    assert(entries_view(r@) == entries_to(8));
    add_sequence_members(&mut r);
    assert(entries_view(r@) == entries_to(9));
    add_mutable_collection_members(&mut r);
    assert(entries_view(r@) == entries_to(10));
    add_map_members(&mut r);
    assert(entries_view(r@) == entries_to(11));
    add_pair_members(&mut r);
    assert(entries_view(r@) == entries_to(12));
    add_numeric_members(&mut r);
    assert(entries_view(r@) == entries_to(13));
    add_universal_generated_members(&mut r);
    assert(entries_view(r@) == entries_to(14));
    add_higher_order_collection_functions(&mut r);
    assert(entries_view(r@) == entries_to(15));
    add_scope_functions(&mut r);
    assert(entries_view(r@) == entries_to(16));
    add_result(&mut r);
    assert(entries_view(r@) == entries_to(17));
    add_more_keywords_declarations(&mut r);
    assert(entries_view(r@) == entries_to(18));
    add_more_operators(&mut r);
    assert(entries_view(r@) == entries_to(19));
    r
}

// ── Laws ────────────────────────────────────────────────────────────────────

/// Whether an entry has a name and a chapter, and in the chapter "Throwables" names
/// a built-in throwable.
pub open spec fn is_sound(e: EntryView) -> bool {
    &&& e.name.len() > 0
    &&& e.chapter.len() > 0
    &&& e.chapter == "Throwables"@ ==> Builtin::named(e.name) is Some
}

proof fn lemma_titles(k: int)
    requires
        0 <= k < chapters().len(),
    ensures
        chapters()[k].0.len() > 0,
        chapters()[k].0 == "Throwables"@ ==> k == 5,
{
    reveal_strlit("Builtin Functions");
    reveal_strlit("Char Members");
    reveal_strlit("Higher-Order Collection Functions");
    reveal_strlit("Keywords & Declarations");
    reveal_strlit("Map Members");
    reveal_strlit("Math");
    reveal_strlit("Mutable Collection Members");
    reveal_strlit("Numeric Members");
    reveal_strlit("Operators");
    reveal_strlit("Pair Members");
    reveal_strlit("Result");
    reveal_strlit("Scope Functions");
    reveal_strlit("Sequence Members");
    reveal_strlit("String Members");
    reveal_strlit("Throwables");
    reveal_strlit("Types");
    reveal_strlit("Universal & Generated Members");
    assert(chapters()[k].0.len() == 10 ==> k == 5);
}

proof fn lemma_keywords_declarations_named(i: int)
    requires
        0 <= i < keywords_declarations_names().len(),
    ensures
        keywords_declarations_names()[i].len() > 0,
{
    reveal_strlit("fun");
    reveal_strlit("val");
    reveal_strlit("var");
    reveal_strlit("if");
    reveal_strlit("else");
    reveal_strlit("while");
    reveal_strlit("for");
    reveal_strlit("in");
    reveal_strlit("return");
    reveal_strlit("until");
    reveal_strlit("downTo");
    reveal_strlit("step");
    reveal_strlit("when");
    reveal_strlit("is");
    reveal_strlit("class");
    reveal_strlit("interface");
    reveal_strlit("object");
    reveal_strlit("data");
    reveal_strlit("open");
    reveal_strlit("override");
    reveal_strlit("abstract");
    reveal_strlit("sealed");
    reveal_strlit("final");
    reveal_strlit("private");
    reveal_strlit("inner");
    reveal_strlit("super");
    reveal_strlit("this");
    reveal_strlit("it");
    reveal_strlit("break");
    reveal_strlit("continue");
    reveal_strlit("try");
    reveal_strlit("catch");
    reveal_strlit("finally");
    reveal_strlit("throw");
    reveal_strlit("null");
    reveal_strlit("true");
    reveal_strlit("false");
    reveal_strlit("import");
    reveal_strlit("package");
    reveal_strlit("as");
    reveal_strlit("rust");
}

proof fn lemma_operators_named(i: int)
    requires
        0 <= i < operators_names().len(),
    ensures
        operators_names()[i].len() > 0,
{
    reveal_strlit("+");
    reveal_strlit("-");
    reveal_strlit("*");
    reveal_strlit("/");
    reveal_strlit("%");
    reveal_strlit("=");
    reveal_strlit("+=");
    reveal_strlit("-=");
    reveal_strlit("*=");
    reveal_strlit("/=");
    reveal_strlit("%=");
    reveal_strlit("++");
    reveal_strlit("--");
    reveal_strlit("==");
    reveal_strlit("!=");
    reveal_strlit("<");
    reveal_strlit(">");
    reveal_strlit("<=");
    reveal_strlit(">=");
    reveal_strlit("&&");
    reveal_strlit("||");
    reveal_strlit("!");
    reveal_strlit("..");
    reveal_strlit("?.");
    reveal_strlit("?:");
    reveal_strlit("!!");
    reveal_strlit("?");
    reveal_strlit("[]");
    reveal_strlit("[]=");
    reveal_strlit("->");
    reveal_strlit("@");
    reveal_strlit("$");
    reveal_strlit("to");
    reveal_strlit("!in");
    reveal_strlit("!is");
    reveal_strlit(".");
    reveal_strlit(":");
    reveal_strlit(";");
}

proof fn lemma_types_named(i: int)
    requires
        0 <= i < types_names().len(),
    ensures
        types_names()[i].len() > 0,
{
    reveal_strlit("Int");
    reveal_strlit("Long");
    reveal_strlit("Double");
    reveal_strlit("Float");
    reveal_strlit("Boolean");
    reveal_strlit("Char");
    reveal_strlit("String");
    reveal_strlit("Unit");
    reveal_strlit("Any");
    reveal_strlit("List");
    reveal_strlit("MutableList");
    reveal_strlit("Set");
    reveal_strlit("MutableSet");
    reveal_strlit("Map");
    reveal_strlit("MutableMap");
    reveal_strlit("Pair");
    reveal_strlit("Array");
    reveal_strlit("IntArray");
    reveal_strlit("IntRange");
    reveal_strlit("Nothing");
}

proof fn lemma_builtin_functions_named(i: int)
    requires
        0 <= i < builtin_functions_names().len(),
    ensures
        builtin_functions_names()[i].len() > 0,
{
    reveal_strlit("println");
    reveal_strlit("print");
    reveal_strlit("listOf");
    reveal_strlit("mutableListOf");
    reveal_strlit("arrayListOf");
    reveal_strlit("emptyList");
    reveal_strlit("setOf");
    reveal_strlit("mutableSetOf");
    reveal_strlit("hashSetOf");
    reveal_strlit("linkedSetOf");
    reveal_strlit("sortedSetOf");
    reveal_strlit("emptySet");
    reveal_strlit("mapOf");
    reveal_strlit("mutableMapOf");
    reveal_strlit("hashMapOf");
    reveal_strlit("emptyMap");
    reveal_strlit("arrayOf");
    reveal_strlit("intArrayOf");
    reveal_strlit("doubleArrayOf");
    reveal_strlit("booleanArrayOf");
    reveal_strlit("charArrayOf");
    reveal_strlit("IntArray");
    reveal_strlit("DoubleArray");
    reveal_strlit("BooleanArray");
    reveal_strlit("CharArray");
    reveal_strlit("Array");
}

proof fn lemma_math_named(i: int)
    requires
        0 <= i < math_names().len(),
    ensures
        math_names()[i].len() > 0,
{
    reveal_strlit("abs");
    reveal_strlit("sqrt");
    reveal_strlit("floor");
    reveal_strlit("ceil");
    reveal_strlit("round");
    reveal_strlit("max");
    reveal_strlit("min");
    reveal_strlit("maxOf");
    reveal_strlit("minOf");
    reveal_strlit("PI");
    reveal_strlit("E");
    reveal_strlit("Math");
    reveal_strlit("Math.round");
}

proof fn lemma_throwables_named(i: int)
    requires
        0 <= i < throwables_names().len(),
    ensures
        throwables_names()[i].len() > 0,
{
    reveal_strlit("Throwable");
    reveal_strlit("Exception");
    reveal_strlit("Error");
    reveal_strlit("RuntimeException");
    reveal_strlit("ArithmeticException");
    reveal_strlit("IllegalArgumentException");
    reveal_strlit("IllegalStateException");
    reveal_strlit("NumberFormatException");
    reveal_strlit("IndexOutOfBoundsException");
    reveal_strlit("StringIndexOutOfBoundsException");
    reveal_strlit("ArrayIndexOutOfBoundsException");
    reveal_strlit("NullPointerException");
    reveal_strlit("ClassCastException");
    reveal_strlit("UnsupportedOperationException");
    reveal_strlit("NegativeArraySizeException");
    reveal_strlit("NoSuchElementException");
}

proof fn lemma_string_members_named(i: int)
    requires
        0 <= i < string_members_names().len(),
    ensures
        string_members_names()[i].len() > 0,
{
    reveal_strlit("length");
    reveal_strlit("uppercase");
    reveal_strlit("toUpperCase");
    reveal_strlit("lowercase");
    reveal_strlit("toLowerCase");
    reveal_strlit("trim");
    reveal_strlit("isEmpty");
    reveal_strlit("isNotEmpty");
    reveal_strlit("isBlank");
    reveal_strlit("isNotBlank");
    reveal_strlit("contains");
    reveal_strlit("startsWith");
    reveal_strlit("endsWith");
    reveal_strlit("plus");
    reveal_strlit("replace");
    reveal_strlit("repeat");
    reveal_strlit("indexOf");
    reveal_strlit("substring");
}

proof fn lemma_char_members_named(i: int)
    requires
        0 <= i < char_members_names().len(),
    ensures
        char_members_names()[i].len() > 0,
{
    reveal_strlit("code");
    reveal_strlit("digitToInt");
    reveal_strlit("isDigit");
    reveal_strlit("isLetter");
    reveal_strlit("isLetterOrDigit");
    reveal_strlit("isWhitespace");
    reveal_strlit("isUpperCase");
    reveal_strlit("isLowerCase");
    reveal_strlit("uppercaseChar");
    reveal_strlit("lowercaseChar");
    reveal_strlit("uppercase");
    reveal_strlit("lowercase");
    reveal_strlit("compareTo");
    reveal_strlit("plus");
    reveal_strlit("minus");
    reveal_strlit("equals");
    reveal_strlit("hashCode");
    reveal_strlit("toString");
}

proof fn lemma_sequence_members_named(i: int)
    requires
        0 <= i < sequence_members_names().len(),
    ensures
        sequence_members_names()[i].len() > 0,
{
    reveal_strlit("size");
    reveal_strlit("count");
    reveal_strlit("isEmpty");
    reveal_strlit("isNotEmpty");
    reveal_strlit("first");
    reveal_strlit("last");
    reveal_strlit("get");
    reveal_strlit("contains");
    reveal_strlit("indexOf");
    reveal_strlit("sum");
    reveal_strlit("average");
    reveal_strlit("max");
    reveal_strlit("min");
    reveal_strlit("toList");
    reveal_strlit("toMutableList");
    reveal_strlit("toTypedArray");
    reveal_strlit("asList");
    reveal_strlit("toSet");
    reveal_strlit("toMutableSet");
    reveal_strlit("toHashSet");
    reveal_strlit("distinct");
    reveal_strlit("union");
    reveal_strlit("intersect");
    reveal_strlit("subtract");
    reveal_strlit("sorted");
    reveal_strlit("sortedDescending");
    reveal_strlit("take");
    reveal_strlit("drop");
    reveal_strlit("joinToString");
    reveal_strlit("reversed");
}

proof fn lemma_mutable_collection_members_named(i: int)
    requires
        0 <= i < mutable_collection_members_names().len(),
    ensures
        mutable_collection_members_names()[i].len() > 0,
{
    reveal_strlit("add");
    reveal_strlit("remove");
    reveal_strlit("removeAt");
}

proof fn lemma_map_members_named(i: int)
    requires
        0 <= i < map_members_names().len(),
    ensures
        map_members_names()[i].len() > 0,
{
    reveal_strlit("size");
    reveal_strlit("isEmpty");
    reveal_strlit("isNotEmpty");
    reveal_strlit("containsKey");
    reveal_strlit("get");
    reveal_strlit("keys");
    reveal_strlit("values");
    reveal_strlit("put");
    reveal_strlit("remove");
}

proof fn lemma_pair_members_named(i: int)
    requires
        0 <= i < pair_members_names().len(),
    ensures
        pair_members_names()[i].len() > 0,
{
    reveal_strlit("first");
    reveal_strlit("second");
}

proof fn lemma_numeric_members_named(i: int)
    requires
        0 <= i < numeric_members_names().len(),
    ensures
        numeric_members_names()[i].len() > 0,
{
    reveal_strlit("plus");
    reveal_strlit("minus");
    reveal_strlit("times");
    reveal_strlit("div");
    reveal_strlit("rem");
    reveal_strlit("toDouble");
    reveal_strlit("toInt");
    reveal_strlit("toLong");
    reveal_strlit("toShort");
    reveal_strlit("toByte");
    reveal_strlit("toChar");
}

proof fn lemma_universal_generated_members_named(i: int)
    requires
        0 <= i < universal_generated_members_names().len(),
    ensures
        universal_generated_members_names()[i].len() > 0,
{
    reveal_strlit("toString");
    reveal_strlit("hashCode");
    reveal_strlit("equals");
    reveal_strlit("componentN");
    reveal_strlit("copy");
    reveal_strlit("message");
}

proof fn lemma_higher_order_collection_functions_named(i: int)
    requires
        0 <= i < higher_order_collection_functions_names().len(),
    ensures
        higher_order_collection_functions_names()[i].len() > 0,
{
    reveal_strlit("map");
    reveal_strlit("mapIndexed");
    reveal_strlit("flatMap");
    reveal_strlit("filter");
    reveal_strlit("filterNot");
    reveal_strlit("forEach");
    reveal_strlit("fold");
    reveal_strlit("reduce");
    reveal_strlit("any");
    reveal_strlit("all");
    reveal_strlit("none");
    reveal_strlit("count");
    reveal_strlit("sumOf");
    reveal_strlit("maxByOrNull");
    reveal_strlit("minByOrNull");
    reveal_strlit("sortedBy");
    reveal_strlit("sortedByDescending");
    reveal_strlit("associate");
    reveal_strlit("associateBy");
    reveal_strlit("associateWith");
    reveal_strlit("groupBy");
}

proof fn lemma_scope_functions_named(i: int)
    requires
        0 <= i < scope_functions_names().len(),
    ensures
        scope_functions_names()[i].len() > 0,
{
    reveal_strlit("let");
    reveal_strlit("also");
    reveal_strlit("takeIf");
    reveal_strlit("takeUnless");
    reveal_strlit("run");
    reveal_strlit("apply");
    reveal_strlit("with");
}

proof fn lemma_result_named(i: int)
    requires
        0 <= i < result_names().len(),
    ensures
        result_names()[i].len() > 0,
{
    reveal_strlit("runCatching");
    reveal_strlit("getOrNull");
    reveal_strlit("getOrElse");
    reveal_strlit("isSuccess");
}

proof fn lemma_more_keywords_declarations_named(i: int)
    requires
        0 <= i < more_keywords_declarations_names().len(),
    ensures
        more_keywords_declarations_names()[i].len() > 0,
{
    reveal_strlit("companion");
    reveal_strlit("vararg");
    reveal_strlit("by");
}

proof fn lemma_more_operators_named(i: int)
    requires
        0 <= i < more_operators_names().len(),
    ensures
        more_operators_names()[i].len() > 0,
{
    reveal_strlit("as");
}

proof fn lemma_chapter_named(k: int, i: int)
    requires
        0 <= k < chapters().len(),
        0 <= i < chapters()[k].1.len(),
    ensures
        chapters()[k].1[i].len() > 0,
        k == 5 ==> Builtin::named(chapters()[k].1[i]) is Some,
{
    if k == 0 {
        lemma_keywords_declarations_named(i);
    } else if k == 1 {
        lemma_operators_named(i);
    } else if k == 2 {
        lemma_types_named(i);
    } else if k == 3 {
        lemma_builtin_functions_named(i);
    } else if k == 4 {
        lemma_math_named(i);
    } else if k == 5 {
        lemma_throwables_named(i);
    } else if k == 6 {
        lemma_string_members_named(i);
    } else if k == 7 {
        lemma_char_members_named(i);
    } else if k == 8 {
        lemma_sequence_members_named(i);
    } else if k == 9 {
        lemma_mutable_collection_members_named(i);
    } else if k == 10 {
        lemma_map_members_named(i);
    } else if k == 11 {
        lemma_pair_members_named(i);
    } else if k == 12 {
        lemma_numeric_members_named(i);
    } else if k == 13 {
        lemma_universal_generated_members_named(i);
    } else if k == 14 {
        lemma_higher_order_collection_functions_named(i);
    } else if k == 15 {
        lemma_scope_functions_named(i);
    } else if k == 16 {
        lemma_result_named(i);
    } else if k == 17 {
        lemma_more_keywords_declarations_named(i);
    } else {
        lemma_more_operators_named(i);
    }
}

proof fn lemma_sound_to(n: int)
    requires
        0 <= n <= chapters().len(),
    ensures
        forall|i: int| 0 <= i < entries_to(n).len() ==> is_sound(#[trigger] entries_to(n)[i]),
    decreases n,
{
    if n > 0 {
        lemma_sound_to(n - 1);
        let (title, names, text) = chapters()[n - 1];
        let before = entries_to(n - 1);
        let own = chapter_entries(title, names, text);
        assert(entries_to(n) == before + own);
        assert forall|i: int| 0 <= i < entries_to(n).len() implies is_sound(
            #[trigger] entries_to(n)[i],
        ) by {
            if i < before.len() {
                assert(entries_to(n)[i] == before[i]);
            } else {
                let j = i - before.len();
                assert(entries_to(n)[i] == own[j]);
                lemma_titles(n - 1);
                lemma_chapter_named(n - 1, j);
            }
        }
    }
}

/// Every entry of the reference has a name and a chapter, and every entry of the
/// chapter "Throwables" names a built-in throwable.
pub proof fn law_corpus_entries()
    ensures
        forall|i: int|
            0 <= i < all_entries().len() ==> {
                let e = #[trigger] all_entries()[i];
                &&& e.name.len() > 0
                &&& e.chapter.len() > 0
                &&& e.chapter == "Throwables"@ ==> Builtin::named(e.name) is Some
            },
{
    lemma_sound_to(chapters().len() as int);
}

} // verus!
