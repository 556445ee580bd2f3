//! The verified core of a Kotlin frontend hosted on the `fusevm` bytecode VM.
//!
//! Source texts:
//! * [`lexer`] and [`token`]: source text to tokens.
//! * [`snippets`]: what texts that are joined or wrapped in `fun main` keep.
//! * [`lsp`] and [`corpus`]: what an editor is told.
//!
//! Values and the state of a run:
//! * [`value`], [`range`] and [`double`]: run-time values and heap objects.
//! * [`host`] and [`table`]: the object heap and what a program declares.
//! * [`throwable`], [`throwing`] and [`types`]: exceptions and type tests.
//! * [`compare`], [`walk`], [`equality`] and [`equivalence`]: `==` and `hashCode`,
//!   without and with the members that a program declares.
//! * [`display`]: `toString`.
//! * [`turns`]: what a walk keeps while a declared member runs.
//!
//! Members and operations:
//! * [`ops`]: the operations of compiled code.
//! * [`members`], [`objects`], [`strings`], [`builder`], [`chars`] and
//!   [`numbers`]: members by the kind of their receiver.
//! * [`receiver`] and [`sequences`]: what iterable receivers share.
//! * [`hof`], [`jobs`], [`lazyseq`] and [`gather`]: members that take a lambda,
//!   and lazy sequences.
//! * [`calls`]: closures, scope functions, results, lazy values, preconditions.
//! * [`operators`], [`order`] and [`sorting`]: collection operators and the order
//!   in which collections iterate.
//! * [`instances`]: class instances and declarations.
//! * [`format`], [`numtext`], [`radix`], [`search`], [`utf16`] and [`text`]: texts.
//! * [`reply`]: what a member answers, before it is stored.
//! * [`laws`]: what a program may rely on, by what it calls.
//!
//! The library never runs user code and computes on no floating-point number.
//! Where a member needs either, it names the call or the task, and goes on with
//! the result that it is handed.
use crate::lexer::Lexer;
use crate::text::{concat3, same};
use crate::token::{Spanned, Tok};
use vstd::prelude::*;

pub mod builder;
pub mod calls;
pub mod chars;
pub mod compare;
pub mod corpus;
pub mod display;
pub mod double;
pub mod equality;
pub mod equivalence;
pub mod format;
pub mod gather;
pub mod hof;
pub mod host;
pub mod instances;
pub mod jobs;
pub mod laws;
pub mod lazyseq;
pub mod lexer;
pub mod lsp;
pub mod members;
pub mod numbers;
pub mod numtext;
pub mod objects;
pub mod operators;
pub mod ops;
pub mod order;
pub mod radix;
pub mod range;
pub mod receiver;
pub mod reply;
pub mod search;
pub mod sequences;
pub mod snippets;
pub mod sorting;
pub mod strings;
pub mod table;
pub mod text;
pub mod throwable;
pub mod throwing;
pub mod token;
pub mod turns;
pub mod types;
pub mod utf16;
pub mod value;
pub mod walk;

verus! {

use crate::lexer::{lines_fit, tokens_from};
use crate::token::{SpannedView, TokView};

/// The crate's version.
pub const VERSION: &'static str = "0.1.0";

/// One-line version banner (`--version`).
pub fn version_banner() -> (banner: String)
    ensures
        banner@ == "kotlinrs "@ + VERSION@ + " — Kotlin on fusevm (compiled, no JVM)"@,
{
    concat3("kotlinrs ", VERSION, " — Kotlin on fusevm (compiled, no JVM)")
}

/// Whether `toks` holds the keyword `fun` directly before the name `main`.
pub open spec fn declares_main(toks: Seq<SpannedView>) -> bool {
    exists|i: int|
        0 <= i < toks.len() - 1 && #[trigger] toks[i].tok == TokView::Plain(Tok::Fun) && toks[i
            + 1].tok == TokView::Ident("main"@)
}

/// Whether the text `src` lexes and declares `fun main`.
pub open spec fn source_has_main(src: Seq<char>) -> bool {
    tokens_from(src, 0) matches Ok(toks) && declares_main(toks)
}

/// The text that is run for `src`: itself when it declares `main`, else a
/// `main` with `src` as its body.
pub open spec fn prepared(src: Seq<char>) -> Seq<char> {
    if source_has_main(src) {
        src
    } else {
        "fun main() {\n"@ + src + "\n}\n"@
    }
}

/// True when the source already declares `fun main`; otherwise a snippet is
/// wrapped as a `main` body (script mode, used for `-e` one-liners).
pub fn has_main(src: &str) -> (r: bool)
    requires
        lines_fit(src@),
    ensures
        r == source_has_main(src@),
{
    let toks: Vec<Spanned> = match Lexer::new(src).tokenize() {
        Ok(t) => t,
        Err(_) => {
            return false;
        },
    };
    let ghost view = toks@.map_values(|t: Spanned| t@);
    if toks.len() == 0 {
        return false;
    }
    let mut i: usize = 0;
    while i < toks.len() - 1
        invariant
            0 <= i <= toks@.len() - 1,
            view == toks@.map_values(|t: Spanned| t@),
            tokens_from(src@, 0) == Ok::<_, Seq<char>>(view),
            forall|j: int|
                0 <= j < i ==> !(#[trigger] view[j].tok == TokView::Plain(Tok::Fun) && view[j
                    + 1].tok == TokView::Ident("main"@)),
        decreases toks.len() - i,
    {
        assert(view[i as int] == toks@[i as int]@);
        assert(view[i + 1] == toks@[i + 1]@);
        if let Tok::Fun = toks[i].tok {
            if let Tok::Ident(name) = &toks[i + 1].tok {
                if same(name.as_str(), "main") {
                    return true;
                }
            }
        }
        i = i + 1;
    }
    false
}

/// Wrap a bare statement snippet in `fun main { … }` when it has no `main`, so
/// `-e 'println(1)'` runs like a script.
pub fn prepare_source(src: &str) -> (r: String)
    requires
        lines_fit(src@),
    ensures
        r@ == prepared(src@),
{
    if has_main(src) {
        src.to_owned()
    } else {
        concat3("fun main() {\n", src, "\n}\n")
    }
}

} // verus!
