//! What the language server answers: completion, hover and diagnostics over the
//! open documents.
use crate::corpus::{corpus, Entry};
use crate::prepare_source;
use crate::radix::parse_long;
use crate::search::{join, split};
use crate::table::Table;
use crate::text::{chars_of_str, concat3, concat5, same, string_of};
use vstd::prelude::*;

verus! {

use crate::corpus::{all_entries, entries_view, EntryView};
use crate::lexer::lines_fit;
use crate::prepared;
use crate::radix::long_number;
use crate::search::{joined, occurs_at, pieces, texts_view};
use crate::value::opt_text;

// ── Lines and words ─────────────────────────────────────────────────────────

/// A line without the carriage return of its line end.
pub open spec fn without_return(s: Seq<char>) -> Seq<char> {
    if s.len() > 0 && s.last() == '\r' {
        s.drop_last()
    } else {
        s
    }
}

/// Line `n` of a text, counted from 0. Behind a last line end there is no line.
pub open spec fn line_of(text: Seq<char>, n: int) -> Option<Seq<char>> {
    let ps = pieces(text, "\n"@);
    if 0 <= n < ps.len() - 1 {
        Some(without_return(ps[n]))
    } else if n == ps.len() - 1 && n >= 0 && ps[n].len() > 0 {
        Some(ps[n])
    } else {
        None
    }
}

/// Line `n` of a text, counted from 0.
pub fn line_at(text: &str, n: u32) -> (r: Option<String>)
    ensures
        opt_text(r) == line_of(text@, n as int),
{
    let ps: Vec<String> = split(&chars_of_str(text), &chars_of_str("\n"));
    if n as u64 >= ps.len() as u64 {
        return None;
    }
    let k: usize = n as usize;
    let v: Vec<char> = chars_of_str(ps[k].as_str());
    let len: usize = v.len();
    assert(v@ == texts_view(ps@)[k as int]);
    assert(v@.subrange(0, len as int) =~= v@);
    if k + 1 < ps.len() {
        if len > 0 && v[len - 1] == '\r' {
            assert(v@.subrange(0, len - 1) =~= v@.drop_last());
            Some(string_of(&v, 0, len - 1))
        } else {
            Some(string_of(&v, 0, len))
        }
    } else if len > 0 {
        Some(string_of(&v, 0, len))
    } else {
        None
    }
}

/// Whether a character belongs to an identifier.
pub open spec fn is_word_char(c: char) -> bool {
    ('a' <= c && c <= 'z') || ('A' <= c && c <= 'Z') || ('0' <= c && c <= '9') || c == '_'
}

fn word_char(c: char) -> (r: bool)
    ensures
        r == is_word_char(c),
{
    ('a' <= c && c <= 'z') || ('A' <= c && c <= 'Z') || ('0' <= c && c <= '9') || c == '_'
}

/// Where the identifier characters in front of position `i` start.
pub open spec fn word_start(s: Seq<char>, i: int) -> int
    decreases i,
{
    if 0 < i <= s.len() && is_word_char(s[i - 1]) {
        word_start(s, i - 1)
    } else {
        i
    }
}

/// Where the identifier characters from position `i` on end.
pub open spec fn word_end(s: Seq<char>, i: int) -> int
    decreases s.len() - i,
{
    if 0 <= i < s.len() && is_word_char(s[i]) {
        word_end(s, i + 1)
    } else {
        i
    }
}

/// The identifier that touches column `character` of line `line`.
pub open spec fn word_of(text: Seq<char>, line: int, character: int) -> Option<Seq<char>> {
    match line_of(text, line) {
        None => None,
        Some(s) => {
            let col = if character < s.len() {
                character
            } else {
                s.len() as int
            };
            let from = word_start(s, col);
            let to = word_end(s, col);
            if from == to {
                None
            } else {
                Some(s.subrange(from, to))
            }
        },
    }
}

/// The identifier at a position, if any.
pub fn word_at(text: &str, line: u32, character: u32) -> (r: Option<String>)
    ensures
        opt_text(r) == word_of(text@, line as int, character as int),
{
    let s: String = match line_at(text, line) {
        None => {
            return None;
        },
        Some(s) => s,
    };
    let v: Vec<char> = chars_of_str(s.as_str());
    let col: usize = if (character as u64) < v.len() as u64 {
        character as usize
    } else {
        v.len()
    };
    let mut from: usize = col;
    while from > 0 && word_char(v[from - 1])
        invariant
            from <= col <= v@.len(),
            word_start(v@, from as int) == word_start(v@, col as int),
        decreases from,
    {
        from = from - 1;
    }
    let mut to: usize = col;
    while to < v.len() && word_char(v[to])
        invariant
            col <= to <= v@.len(),
            word_end(v@, to as int) == word_end(v@, col as int),
        decreases v.len() - to,
    {
        to = to + 1;
    }
    if from == to {
        None
    } else {
        Some(string_of(&v, from, to))
    }
}

// ── Completion ──────────────────────────────────────────────────────────────

/// The kind of a completion item.
#[derive(Clone, Copy, Debug, PartialEq, Eq, Structural)]
pub enum ItemKind {
    Keyword,
    Class,
    Operator,
    Function,
}

/// A completion item.
#[derive(Debug, PartialEq, Eq)]
pub struct Item {
    pub label: String,
    pub kind: ItemKind,
    pub detail: String,
}

/// An [`Item`] as a mathematical value.
#[verifier::ext_equal]
pub struct ItemView {
    pub label: Seq<char>,
    pub kind: ItemKind,
    pub detail: Seq<char>,
}

impl View for Item {
    type V = ItemView;

    open spec fn view(&self) -> ItemView {
        ItemView { label: self.label@, kind: self.kind, detail: self.detail@ }
    }
}

/// The kind that a chapter's entries have.
pub open spec fn kind_in(chapter: Seq<char>) -> ItemKind {
    if chapter == "Keywords & Declarations"@ {
        ItemKind::Keyword
    } else if chapter == "Types"@ {
        ItemKind::Class
    } else if chapter == "Operators"@ {
        ItemKind::Operator
    } else if chapter == "Throwables"@ {
        ItemKind::Class
    } else {
        ItemKind::Function
    }
}

/// The completion item of an entry: the first line of its signature, or its name
/// when it has none, and its description.
pub open spec fn item_of(e: EntryView) -> ItemView {
    let first = match line_of(e.signature, 0) {
        Some(s) => s,
        None => e.name,
    };
    ItemView {
        label: e.name,
        kind: kind_in(e.chapter),
        detail: first + " — "@ + e.doc,
    }
}

/// Completion items as mathematical values.
pub open spec fn items_view(v: Seq<Item>) -> Seq<ItemView> {
    v.map_values(|i: Item| i@)
}

/// The kind that a chapter's entries have.
pub fn completion_kind(chapter: &str) -> (k: ItemKind)
    ensures
        k == kind_in(chapter@),
{
    if same(chapter, "Keywords & Declarations") {
        ItemKind::Keyword
    } else if same(chapter, "Types") {
        ItemKind::Class
    } else if same(chapter, "Operators") {
        ItemKind::Operator
    } else if same(chapter, "Throwables") {
        ItemKind::Class
    } else {
        ItemKind::Function
    }
}

fn item(e: &Entry) -> (i: Item)
    ensures
        i@ == item_of(e@),
{
    let first: String = match line_at(e.signature.as_str(), 0) {
        Some(s) => s,
        None => e.name.as_str().to_owned(),
    };
    Item {
        label: e.name.as_str().to_owned(),
        kind: completion_kind(e.chapter.as_str()),
        detail: concat3(first.as_str(), " — ", e.doc.as_str()),
    }
}

/// One completion item for each entry of the language reference.
pub fn completions() -> (r: Vec<Item>)
    ensures
        items_view(r@) == all_entries().map_values(|e: EntryView| item_of(e)),
{
    let entries: Vec<Entry> = corpus();
    let ghost want = all_entries().map_values(|e: EntryView| item_of(e));
    let mut r: Vec<Item> = Vec::new();
    let mut i: usize = 0;
    assert(want.len() == entries@.len()) by {
        assert(entries_view(entries@).len() == entries@.len());
    }
    while i < entries.len()
        invariant
            i <= entries@.len(),
            want.len() == entries@.len(),
            entries_view(entries@) == all_entries(),
            want == all_entries().map_values(|e: EntryView| item_of(e)),
            r@.len() == i,
            forall|k: int| 0 <= k < i ==> (#[trigger] r@[k])@ == want[k],
        decreases entries.len() - i,
    {
        assert(entries_view(entries@)[i as int] == entries@[i as int]@);
        r.push(item(&entries[i]));
        i = i + 1;
    }
    assert(items_view(r@) =~= want);
    r
}

// ── Hover ───────────────────────────────────────────────────────────────────

/// What hover shows of an entry.
pub open spec fn entry_text(e: EntryView) -> Seq<char> {
    "**`"@ + e.name + "`** — _"@ + e.chapter + "_\n\n```kotlin\n"@ + e.signature + "\n```\n\n"@
        + e.doc + "\n\n```kotlin\n"@ + e.example + "\n```"@
}

/// The texts of the entries called `word`.
pub open spec fn entry_texts(es: Seq<EntryView>, word: Seq<char>) -> Seq<Seq<char>>
    decreases es.len(),
{
    if es.len() == 0 {
        Seq::empty()
    } else if es.last().name == word {
        entry_texts(es.drop_last(), word).push(entry_text(es.last()))
    } else {
        entry_texts(es.drop_last(), word)
    }
}

/// What hover shows for a word: its entries, or a banner when it has none.
pub open spec fn word_text(word: Seq<char>) -> Seq<char> {
    let ts = entry_texts(all_entries(), word);
    if ts.len() == 0 {
        "**kotlinrs** — Kotlin on the fusevm bytecode VM + Cranelift JIT."@
    } else {
        joined(ts, "\n\n"@)
    }
}

/// What hover shows at a position of a document, which may not be open.
pub open spec fn hover_text(text: Option<Seq<char>>, line: int, character: int) -> Seq<char> {
    word_text(
        match text {
            Some(t) => match word_of(t, line, character) {
                Some(w) => w,
                None => Seq::empty(),
            },
            None => Seq::empty(),
        },
    )
}

fn describe(e: &Entry) -> (s: String)
    ensures
        s@ == entry_text(e@),
{
    let head: String = concat5(
        "**`",
        e.name.as_str(),
        "`** — _",
        e.chapter.as_str(),
        "_\n\n```kotlin\n",
    );
    let middle: String = concat5(
        head.as_str(),
        e.signature.as_str(),
        "\n```\n\n",
        e.doc.as_str(),
        "\n\n```kotlin\n",
    );
    let s: String = concat3(middle.as_str(), e.example.as_str(), "\n```");
    assert(s@ =~= entry_text(e@));
    s
}

/// What hover shows for a word.
pub fn hover_word(word: &str) -> (s: String)
    ensures
        s@ == word_text(word@),
{
    let entries: Vec<Entry> = corpus();
    let ghost all = entries_view(entries@);
    let mut texts: Vec<String> = Vec::new();
    let mut i: usize = 0;
    assert(texts_view(texts@) =~= Seq::empty());
    while i < entries.len()
        invariant
            i <= entries@.len(),
            all == entries_view(entries@),
            texts_view(texts@) == entry_texts(all.take(i as int), word@),
        decreases entries.len() - i,
    {
        assert(all.take(i + 1).drop_last() =~= all.take(i as int));
        assert(all.take(i + 1).last() == entries@[i as int]@);
        if same(entries[i].name.as_str(), word) {
            let ghost before = texts@;
            texts.push(describe(&entries[i]));
            assert(texts_view(texts@) =~= texts_view(before).push(entry_text(entries@[i as int]@)));
        }
        i = i + 1;
    }
    assert(all.take(i as int) =~= all);
    if texts.len() == 0 {
        "**kotlinrs** — Kotlin on the fusevm bytecode VM + Cranelift JIT.".to_owned()
    } else {
        join(&texts, "\n\n")
    }
}

/// What hover shows at a position of a document, which may not be open.
pub fn hover(text: Option<&str>, line: u32, character: u32) -> (s: String)
    ensures
        s@ == hover_text(
            match text {
                Some(t) => Some(t@),
                None => None,
            },
            line as int,
            character as int,
        ),
{
    let word: String = match text {
        Some(t) => match word_at(t, line, character) {
            Some(w) => w,
            None => String::new(),
        },
        None => String::new(),
    };
    assert(word@.len() == 0 ==> word@ =~= Seq::empty());
    hover_word(word.as_str())
}

// ── Diagnostics ─────────────────────────────────────────────────────────────

/// A syntax error: its line, counted from 0, and its message.
#[derive(Debug, PartialEq, Eq)]
pub struct Diagnostic {
    pub line: u32,
    pub message: String,
}

/// A [`Diagnostic`] as a mathematical value.
#[verifier::ext_equal]
pub struct DiagnosticView {
    pub line: int,
    pub message: Seq<char>,
}

impl View for Diagnostic {
    type V = DiagnosticView;

    open spec fn view(&self) -> DiagnosticView {
        DiagnosticView { line: self.line as int, message: self.message@ }
    }
}

/// The characters with the Unicode property `White_Space`.
pub open spec fn is_space(c: char) -> bool {
    ||| '\u{9}' <= c <= '\u{d}'
    ||| c == '\u{20}'
    ||| c == '\u{85}'
    ||| c == '\u{a0}'
    ||| c == '\u{1680}'
    ||| '\u{2000}' <= c <= '\u{200a}'
    ||| c == '\u{2028}'
    ||| c == '\u{2029}'
    ||| c == '\u{202f}'
    ||| c == '\u{205f}'
    ||| c == '\u{3000}'
}

/// Whether a text is nothing but white space.
pub open spec fn is_void(s: Seq<char>) -> bool {
    forall|i: int| 0 <= i < s.len() ==> is_space(#[trigger] s[i])
}

/// Whether a text is nothing but white space.
pub fn is_blank(s: &str) -> (r: bool)
    ensures
        r == is_void(s@),
{
    let v: Vec<char> = chars_of_str(s);
    let mut i: usize = 0;
    while i < v.len()
        invariant
            i <= v@.len(),
            v@ == s@,
            forall|k: int| 0 <= k < i ==> is_space(#[trigger] v@[k]),
        decreases v.len() - i,
    {
        let c: char = v[i];
        let space: bool = ('\u{9}' <= c && c <= '\u{d}') || c == '\u{20}' || c == '\u{85}' || c
            == '\u{a0}' || c == '\u{1680}' || ('\u{2000}' <= c && c <= '\u{200a}') || c == '\u{2028}'
            || c == '\u{2029}' || c == '\u{202f}' || c == '\u{205f}' || c == '\u{3000}';
        if !space {
            assert(!is_space(v@[i as int]));
            return false;
        }
        i = i + 1;
    }
    true
}

/// The last position up to `i` at which `p` stands in `s`.
pub open spec fn last_occurrence(s: Seq<char>, p: Seq<char>, i: int) -> Option<int>
    decreases i + 1,
{
    if i < 0 {
        None
    } else if occurs_at(s, p, i) {
        Some(i)
    } else {
        last_occurrence(s, p, i - 1)
    }
}

/// How many decimal digits stand from position `i` on.
pub open spec fn digit_run(s: Seq<char>, i: int) -> int
    decreases s.len() - i,
{
    if 0 <= i < s.len() && '0' <= s[i] && s[i] <= '9' {
        1 + digit_run(s, i + 1)
    } else {
        0
    }
}

/// The line that an error message names in its last `(line N)`, or 1 when it
/// names none.
pub open spec fn error_line(e: Seq<char>) -> int {
    match last_occurrence(e, "(line "@, e.len() as int) {
        None => 1,
        Some(k) => {
            let from = k + "(line "@.len();
            match long_number(e.subrange(from, from + digit_run(e, from)), 10) {
                Some(n) => if 0 <= n <= u32::MAX {
                    n
                } else {
                    1
                },
                None => 1,
            }
        },
    }
}

proof fn lemma_digit_run(s: Seq<char>, i: int)
    requires
        0 <= i <= s.len(),
    ensures
        0 <= digit_run(s, i) <= s.len() - i,
    decreases s.len() - i,
{
    if i < s.len() {
        lemma_digit_run(s, i + 1);
    }
}

/// The line that an error message names, counted from 1.
pub fn parse_error_line(e: &str) -> (n: u32)
    ensures
        n == error_line(e@),
{
    let v: Vec<char> = chars_of_str(e);
    let mark: Vec<char> = chars_of_str("(line ");
    let len: usize = v.len();
    let mut k: usize = len;
    loop
        invariant
            k <= len,
            len == v@.len(),
            v@ == e@,
            mark@ == "(line "@,
            last_occurrence(e@, mark@, k as int) == last_occurrence(e@, mark@, len as int),
        decreases k,
    {
        if crate::search::occurs(&v, &mark, k) {
            let from: usize = k + mark.len();
            let mut to: usize = from;
            proof {
                lemma_digit_run(e@, from as int);
            }
            while to < v.len() && '0' <= v[to] && v[to] <= '9'
                invariant
                    from <= to <= v@.len(),
                    v@ == e@,
                    (to - from) + digit_run(e@, to as int) == digit_run(e@, from as int),
                decreases v.len() - to,
            {
                to = to + 1;
            }
            let digits: String = string_of(&v, from, to);
            return match parse_long(digits.as_str(), 10) {
                Some(n) => if 0 <= n && n <= u32::MAX as i64 {
                    n as u32
                } else {
                    1
                },
                None => 1,
            };
        }
        if k == 0 {
            assert(last_occurrence(e@, mark@, 0) is None) by {
                assert(last_occurrence(e@, mark@, -1) is None);
            }
            return 1;
        }
        k = k - 1;
    }
}

/// The diagnostic of a syntax error: on the line that it names, put back by one
/// where the source was wrapped in a `fun main` header.
pub open spec fn diagnosed(text: Seq<char>, error: Option<Seq<char>>) -> Option<DiagnosticView> {
    match error {
        Some(e) => if is_void(text) {
            None
        } else {
            let shift: int = if prepared(text) != text {
                2
            } else {
                1
            };
            let line = error_line(e) - shift;
            Some(
                DiagnosticView {
                    line: if line < 0 {
                        0
                    } else {
                        line
                    },
                    message: e,
                },
            )
        },
        None => None,
    }
}

/// The diagnostics of a document whose prepared source the parser answered with
/// `error`, or with none.
pub fn compute_diagnostics(text: &str, error: Option<String>) -> (r: Option<Diagnostic>)
    requires
        lines_fit(text@),
    ensures
        match r {
            Some(d) => diagnosed(text@, opt_text(error)) == Some(d@),
            None => diagnosed(text@, opt_text(error)) is None,
        },
{
    match error {
        None => None,
        Some(e) => {
            if is_blank(text) {
                return None;
            }
            let source: String = prepare_source(text);
            let shift: u32 = if same(source.as_str(), text) {
                1
            } else {
                2
            };
            let raw: u32 = parse_error_line(e.as_str());
            let line: u32 = if raw < shift {
                0
            } else {
                raw - shift
            };
            Some(Diagnostic { line, message: e })
        },
    }
}

// ── Documents ───────────────────────────────────────────────────────────────

/// The open documents.
pub struct Docs {
    pub texts: Table<String>,
}

impl View for Docs {
    type V = Map<Seq<char>, Seq<char>>;

    open spec fn view(&self) -> Map<Seq<char>, Seq<char>> {
        self.texts@
    }
}

/// What the editor reports about a document.
#[derive(Debug, PartialEq, Eq)]
pub enum Event {
    /// It was opened with a text.
    Opened(String, String),
    /// It was changed; each change is the whole text, and the last one counts.
    Changed(String, Vec<String>),
    /// It was closed.
    Closed(String),
}

/// An [`Event`] as a mathematical value.
pub enum EventView {
    Opened(Seq<char>, Seq<char>),
    Changed(Seq<char>, Seq<Seq<char>>),
    Closed(Seq<char>),
}

impl View for Event {
    type V = EventView;

    open spec fn view(&self) -> EventView {
        match self {
            Event::Opened(uri, text) => EventView::Opened(uri@, text@),
            Event::Changed(uri, changes) => EventView::Changed(uri@, texts_view(changes@)),
            Event::Closed(uri) => EventView::Closed(uri@),
        }
    }
}

/// The documents after an event, and the text whose diagnostics are due. A
/// closed document has those of an empty text.
pub open spec fn after_event(docs: Map<Seq<char>, Seq<char>>, e: EventView) -> (
    Map<Seq<char>, Seq<char>>,
    Option<Seq<char>>,
) {
    match e {
        EventView::Opened(uri, text) => (docs.insert(uri, text), Some(text)),
        EventView::Changed(uri, changes) => if changes.len() == 0 {
            (docs, None)
        } else {
            (docs.insert(uri, changes.last()), Some(changes.last()))
        },
        EventView::Closed(uri) => (docs.remove(uri), Some(Seq::empty())),
    }
}

impl Docs {
    /// No open document.
    pub fn new() -> (d: Docs)
        ensures
            d@ == Map::<Seq<char>, Seq<char>>::empty(),
    {
        Docs { texts: Table::new() }
    }

    /// Take note of an event. Answers the text whose diagnostics are due.
    pub fn apply(&mut self, e: &Event) -> (r: Option<String>)
        ensures
            (final(self)@, opt_text(r)) == after_event(old(self)@, e@),
    {
        match e {
            Event::Opened(uri, text) => {
                self.texts.insert(uri.as_str(), text.as_str().to_owned());
                Some(text.as_str().to_owned())
            },
            Event::Changed(uri, changes) => {
                let n: usize = changes.len();
                if n == 0 {
                    return None;
                }
                let text: String = changes[n - 1].as_str().to_owned();
                assert(texts_view(changes@).last() == changes@[n - 1]@);
                self.texts.insert(uri.as_str(), changes[n - 1].as_str().to_owned());
                Some(text)
            },
            Event::Closed(uri) => {
                self.texts.remove(uri.as_str());
                let none: String = String::new();
                assert(none@ =~= Seq::empty());
                Some(none)
            },
        }
    }

    /// The text of an open document.
    pub fn text(&self, uri: &str) -> (r: Option<&str>)
        ensures
            match r {
                Some(t) => self@.contains_key(uri@) && self@[uri@] == t@,
                None => !self@.contains_key(uri@),
            },
    {
        match self.texts.get(uri) {
            Some(t) => Some(t.as_str()),
            None => None,
        }
    }
}

/// A request that the server knows.
#[derive(Clone, Copy, Debug, PartialEq, Eq, Structural)]
pub enum Method {
    Completion,
    Hover,
    /// Answered as an unknown method.
    Unhandled,
}

/// The request that a method name means.
pub open spec fn method_of(name: Seq<char>) -> Method {
    if name == "textDocument/completion"@ {
        Method::Completion
    } else if name == "textDocument/hover"@ {
        Method::Hover
    } else {
        Method::Unhandled
    }
}

/// The request that a method name means.
pub fn request_method(name: &str) -> (m: Method)
    ensures
        m == method_of(name@),
{
    if same(name, "textDocument/completion") {
        Method::Completion
    } else if same(name, "textDocument/hover") {
        Method::Hover
    } else {
        Method::Unhandled
    }
}

// ── Laws ────────────────────────────────────────────────────────────────────

/// A word that names no entry shows the banner.
pub proof fn law_unknown_word_shows_banner(word: Seq<char>)
    requires
        forall|i: int| 0 <= i < all_entries().len() ==> (#[trigger] all_entries()[i]).name != word,
    ensures
        word_text(word) == "**kotlinrs** — Kotlin on the fusevm bytecode VM + Cranelift JIT."@,
{
    lemma_no_entry(all_entries(), word);
}

proof fn lemma_no_entry(es: Seq<EntryView>, word: Seq<char>)
    requires
        forall|i: int| 0 <= i < es.len() ==> (#[trigger] es[i]).name != word,
    ensures
        entry_texts(es, word).len() == 0,
    decreases es.len(),
{
    if es.len() > 0 {
        assert(es[es.len() - 1] == es.last());
        assert forall|i: int| 0 <= i < es.drop_last().len() implies (#[trigger] es.drop_last()[i]).name
            != word by {
            assert(es.drop_last()[i] == es[i]);
        }
        lemma_no_entry(es.drop_last(), word);
    }
}

/// A word found at a position is made of identifier characters alone, and no
/// identifier character stands directly before or behind it.
pub proof fn law_words_are_maximal(s: Seq<char>, col: int)
    requires
        0 <= col <= s.len(),
    ensures
        ({
            let from = word_start(s, col);
            let to = word_end(s, col);
            &&& 0 <= from <= col <= to <= s.len()
            &&& forall|i: int| from <= i < to ==> is_word_char(#[trigger] s[i])
            &&& from > 0 ==> !is_word_char(s[from - 1])
            &&& to < s.len() ==> !is_word_char(s[to])
        }),
{
    lemma_word_start(s, col);
    lemma_word_end(s, col);
}

proof fn lemma_word_start(s: Seq<char>, i: int)
    requires
        0 <= i <= s.len(),
    ensures
        0 <= word_start(s, i) <= i,
        forall|k: int| word_start(s, i) <= k < i ==> is_word_char(#[trigger] s[k]),
        word_start(s, i) > 0 ==> !is_word_char(s[word_start(s, i) - 1]),
    decreases i,
{
    if i > 0 && is_word_char(s[i - 1]) {
        lemma_word_start(s, i - 1);
    }
}

proof fn lemma_word_end(s: Seq<char>, i: int)
    requires
        0 <= i <= s.len(),
    ensures
        i <= word_end(s, i) <= s.len(),
        forall|k: int| i <= k < word_end(s, i) ==> is_word_char(#[trigger] s[k]),
        word_end(s, i) < s.len() ==> !is_word_char(s[word_end(s, i)]),
    decreases s.len() - i,
{
    if i < s.len() && is_word_char(s[i]) {
        lemma_word_end(s, i + 1);
    }
}

/// A closed document is no longer known, and an opened one is known with its
/// text; the other documents stay.
pub proof fn law_documents(docs: Map<Seq<char>, Seq<char>>, uri: Seq<char>, text: Seq<char>, other: Seq<char>)
    requires
        other != uri,
    ensures
        after_event(docs, EventView::Opened(uri, text)).0[uri] == text,
        !after_event(docs, EventView::Closed(uri)).0.contains_key(uri),
        docs.contains_key(other) ==> after_event(docs, EventView::Opened(uri, text)).0[other]
            == docs[other] && after_event(docs, EventView::Closed(uri)).0[other] == docs[other],
{
}

} // verus!
