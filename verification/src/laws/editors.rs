//! What an editor may rely on: the words, the hints and the diagnostics of a
//! document.
use crate::lsp::{ItemKind, Method};
use vstd::prelude::*;

verus! {

use crate::corpus::{all_entries, EntryView};
use crate::laws::texts::lemma_first_piece;
use crate::lsp::{
    after_event, diagnosed, entry_text, entry_texts, error_line, hover_text, item_of, kind_in,
    last_occurrence, line_of, method_of, word_end, word_of, word_start, word_text, EventView,
};
use crate::lsp::{digit_run, is_void, is_word_char};
use crate::search::{occurs_at, pieces};
use crate::prepared;

// ── Lines ───────────────────────────────────────────────────────────────────

/// The first line of a text is what stands before its first line break, without a
/// carriage return; the further lines are those of what stands behind it.
pub proof fn law_lines(a: Seq<char>, b: Seq<char>, n: nat)
    requires
        forall|i: int| 0 <= i < a.len() ==> a[i] != '\n',
    ensures
        a.len() > 0 ==> line_of(a, 0) == Some(a),
        a.len() == 0 ==> line_of(a, 0) is None,
        a.len() == 0 || a.last() != '\r' ==> line_of(a + seq!['\n'] + b, 0) == Some(a),
        line_of(a + seq!['\r', '\n'] + b, 0) == Some(a),
        line_of(a + seq!['\n'] + b, n as int + 1) == line_of(b, n as int),
{
    reveal_strlit("\n");
    assert("\n"@ =~= seq!['\n']);
    lemma_first_piece(a, "\n"@, b);
    let r = a.push('\r');
    lemma_first_piece(r, "\n"@, b);
    assert(r + "\n"@ + b =~= a + seq!['\r', '\n'] + b);
    assert(r.drop_last() =~= a);
    lemma_first_piece(Seq::empty(), "\n"@, Seq::empty());
    let ps = pieces(b, "\n"@);
    lemma_some_piece(b);
    let all = seq![a] + ps;
    assert(all[0] == a);
    assert((seq![r] + ps)[0] == r);
    if n < ps.len() {
        assert(all[n as int + 1] == ps[n as int]);
    }
}

proof fn lemma_some_piece(b: Seq<char>)
    ensures
        pieces(b, "\n"@).len() > 0,
{
    reveal_strlit("\n");
}

// ── Words ───────────────────────────────────────────────────────────────────

proof fn lemma_start(s: Seq<char>, from: int, i: int)
    requires
        0 <= from <= i <= s.len(),
        forall|k: int| from <= k < i ==> is_word_char(#[trigger] s[k]),
        from > 0 ==> !is_word_char(s[from - 1]),
    ensures
        word_start(s, i) == from,
    decreases i,
{
    if from < i {
        assert(is_word_char(s[i - 1]));
        lemma_start(s, from, i - 1);
    }
}

proof fn lemma_end(s: Seq<char>, i: int, to: int)
    requires
        0 <= i <= to <= s.len(),
        forall|k: int| i <= k < to ==> is_word_char(#[trigger] s[k]),
        to < s.len() ==> !is_word_char(s[to]),
    ensures
        word_end(s, i) == to,
    decreases to - i,
{
    if i < to {
        assert(is_word_char(s[i]));
        lemma_end(s, i + 1, to);
    }
}

/// The word at a position is the whole identifier that the position touches, from
/// its first character to behind its last.
pub proof fn law_words(
    text: Seq<char>,
    line: int,
    pre: Seq<char>,
    w: Seq<char>,
    post: Seq<char>,
    col: int,
)
    requires
        line_of(text, line) == Some(pre + w + post),
        w.len() > 0,
        forall|i: int| 0 <= i < w.len() ==> is_word_char(#[trigger] w[i]),
        pre.len() > 0 ==> !is_word_char(pre.last()),
        post.len() > 0 ==> !is_word_char(post[0]),
        pre.len() <= col <= pre.len() + w.len(),
    ensures
        word_of(text, line, col) == Some(w),
{
    let s = pre + w + post;
    let from = pre.len() as int;
    let to = from + w.len();
    assert forall|k: int| from <= k < to implies is_word_char(#[trigger] s[k]) by {
        assert(s[k] == w[k - from]);
    }
    if from > 0 {
        assert(s[from - 1] == pre.last());
    }
    if to < s.len() {
        assert(s[to] == post[0]);
    }
    lemma_start(s, from, col);
    lemma_end(s, col, to);
    assert(s.subrange(from, to) =~= w);
}

/// Where there is no identifier, or no such line, there is no word.
pub proof fn law_no_words(text: Seq<char>, line: int, s: Seq<char>, col: int)
    ensures
        line_of(text, line) is None ==> word_of(text, line, col) is None,
        line_of(text, line) == Some(s) && 0 < col < s.len() && !is_word_char(s[col])
            && !is_word_char(s[col - 1]) ==> word_of(text, line, col) is None,
{
}

// ── Hints ───────────────────────────────────────────────────────────────────

proof fn lemma_named(es: Seq<EntryView>, word: Seq<char>, k: int)
    requires
        0 <= k < es.len(),
        es[k].name == word,
        forall|i: int| 0 <= i < es.len() && i != k ==> (#[trigger] es[i]).name != word,
    ensures
        entry_texts(es, word) == seq![entry_text(es[k])],
    decreases es.len(),
{
    let front = es.drop_last();
    if k == es.len() - 1 {
        assert forall|i: int| 0 <= i < front.len() implies (#[trigger] front[i]).name != word by {
            assert(front[i] == es[i]);
        }
        lemma_unnamed(front, word);
        assert(entry_texts(front, word).push(entry_text(es[k])) =~= seq![entry_text(es[k])]);
    } else {
        assert(es[es.len() - 1].name != word);
        assert forall|i: int| 0 <= i < front.len() && i != k implies (#[trigger] front[i]).name
            != word by {
            assert(front[i] == es[i]);
        }
        lemma_named(front, word, k);
    }
}

proof fn lemma_unnamed(es: Seq<EntryView>, word: Seq<char>)
    requires
        forall|i: int| 0 <= i < es.len() ==> (#[trigger] es[i]).name != word,
    ensures
        entry_texts(es, word).len() == 0,
    decreases es.len(),
{
    if es.len() > 0 {
        assert(es[es.len() - 1].name != word);
        assert forall|i: int| 0 <= i < es.drop_last().len() implies (
        #[trigger] es.drop_last()[i]).name != word by {
            assert(es.drop_last()[i] == es[i]);
        }
        lemma_unnamed(es.drop_last(), word);
    }
}

/// A word that is the name of one entry shows that entry, wherever it stands in the
/// document; a document that is not open shows nothing of it.
pub proof fn law_hover(text: Seq<char>, line: int, col: int, k: int)
    requires
        0 <= k < all_entries().len(),
        word_of(text, line, col) == Some(all_entries()[k].name),
        forall|i: int|
            0 <= i < all_entries().len() && i != k ==> (#[trigger] all_entries()[i]).name
                != all_entries()[k].name,
    ensures
        hover_text(Some(text), line, col) == entry_text(all_entries()[k]),
        hover_text(None, line, col) == word_text(Seq::empty()),
{
    lemma_named(all_entries(), all_entries()[k].name, k);
}

/// A completion offers the name of its entry, and shows the first line of its
/// signature before its description.
pub proof fn law_completions(e: EntryView, first: Seq<char>)
    requires
        line_of(e.signature, 0) == Some(first),
    ensures
        item_of(e).label == e.name,
        item_of(e).detail == first + " — "@ + e.doc,
        item_of(e).kind == kind_in(e.chapter),
{
}

/// What the entries of a chapter are.
pub proof fn law_kinds(chapter: Seq<char>)
    ensures
        kind_in("Keywords & Declarations"@) == ItemKind::Keyword,
        kind_in("Types"@) == ItemKind::Class,
        kind_in("Throwables"@) == ItemKind::Class,
        kind_in("Operators"@) == ItemKind::Operator,
        chapter != "Keywords & Declarations"@ && chapter != "Types"@ && chapter != "Throwables"@
            && chapter != "Operators"@ ==> kind_in(chapter) == ItemKind::Function,
{
    reveal_strlit("Keywords & Declarations");
    reveal_strlit("Types");
    reveal_strlit("Throwables");
    reveal_strlit("Operators");
    assert("Keywords & Declarations"@.len() == 23);
    assert("Types"@.len() == 5);
    assert("Throwables"@.len() == 10);
    assert("Operators"@.len() == 9);
}

/// A request is known by its whole name.
pub proof fn law_requests(name: Seq<char>)
    ensures
        method_of(name) == Method::Completion <==> name == "textDocument/completion"@,
        method_of(name) == Method::Hover <==> name == "textDocument/hover"@,
{
    reveal_strlit("textDocument/completion");
    reveal_strlit("textDocument/hover");
    assert("textDocument/completion"@.len() == 23);
    assert("textDocument/hover"@.len() == 18);
}

// ── Diagnostics ─────────────────────────────────────────────────────────────

proof fn lemma_last_mark(s: Seq<char>, p: Seq<char>, i: int, at: int)
    requires
        0 <= at <= i,
        occurs_at(s, p, at),
        forall|k: int| at < k <= i ==> !#[trigger] occurs_at(s, p, k),
    ensures
        last_occurrence(s, p, i) == Some(at),
    decreases i,
{
    if at < i {
        assert(!occurs_at(s, p, i));
        lemma_last_mark(s, p, i - 1, at);
    }
}

proof fn lemma_run(s: Seq<char>, i: int, e: int)
    requires
        0 <= i <= e <= s.len(),
        forall|k: int| i <= k < e ==> '0' <= #[trigger] s[k] <= '9',
        e < s.len() ==> !('0' <= s[e] <= '9'),
    ensures
        digit_run(s, i) == e - i,
    decreases e - i,
{
    if i < e {
        lemma_run(s, i + 1, e);
    }
}

/// The line of an error is the number that its message gives at the end.
pub proof fn law_error_lines(msg: Seq<char>, n: u32)
    ensures
        error_line(msg + "(line "@ + crate::radix::decimal(n as int) + ")"@) == n,
{
    let d = crate::radix::decimal(n as int);
    reveal_strlit("(line ");
    reveal_strlit(")");
    let p = "(line "@;
    let e = msg + p + d + ")"@;
    let at = msg.len() as int;
    let from = at + 6;
    crate::radix::lemma_nat_digits_read_back(n as nat, 10);
    crate::radix::law_radix_round_trip(n as int, 10);
    lemma_decimal_digits(n as nat);
    assert(e.subrange(at, at + 6) =~= p);
    assert(occurs_at(e, p, at));
    assert forall|k: int| at < k <= e.len() implies !#[trigger] occurs_at(e, p, k) by {
        if occurs_at(e, p, k) {
            assert(e.subrange(k, k + 6)[0] == p[0]);
            assert(e[k] == '(');
            if k < from {
                assert(e[k] == p[k - at]);
            } else if k < from + d.len() {
                assert(e[k] == d[k - from]);
            }
        }
    }
    lemma_last_mark(e, p, e.len() as int, at);
    assert forall|k: int| from <= k < from + d.len() implies '0' <= #[trigger] e[k] <= '9' by {
        assert(e[k] == d[k - from]);
    }
    assert(e[from + d.len()] == ')');
    lemma_run(e, from, (from + d.len()) as int);
    assert(e.subrange(from, from + d.len()) =~= d);
}

proof fn lemma_decimal_digits(n: nat)
    ensures
        forall|i: int|
            0 <= i < crate::radix::nat_digits(n, 10).len() ==> '0'
                <= #[trigger] crate::radix::nat_digits(n, 10)[i] <= '9',
        crate::radix::nat_digits(n, 10).len() > 0,
    decreases n,
{
    if n >= 10 {
        lemma_decimal_digits(n / 10);
    }
}

/// A diagnostic stands on the line that the error gives, counted from nothing, one
/// less where the document was wrapped in a `main`, and never before the first line.
/// A document of white space alone has none.
pub proof fn law_diagnostics(text: Seq<char>, e: Seq<char>)
    ensures
        diagnosed(text, None) is None,
        is_void(text) ==> diagnosed(text, Some(e)) is None,
        !is_void(text) ==> (diagnosed(text, Some(e)) matches Some(d) && d.message == e && d.line
            >= 0 && (prepared(text) == text && error_line(e) >= 1 ==> d.line == error_line(e) - 1)
            && (prepared(text) != text && error_line(e) >= 2 ==> d.line == error_line(e) - 2)),
{
}

/// A change replaces a document by the last text it brings, and asks for its
/// diagnostics; a change without a text does nothing.
pub proof fn law_changes(docs: Map<Seq<char>, Seq<char>>, uri: Seq<char>, ts: Seq<Seq<char>>, t: Seq<char>)
    ensures
        after_event(docs, EventView::Changed(uri, ts.push(t))) == (docs.insert(uri, t), Some(t)),
        after_event(docs, EventView::Changed(uri, Seq::empty())) == (docs, None::<Seq<char>>),
        after_event(docs, EventView::Opened(uri, t)) == (docs.insert(uri, t), Some(t)),
        after_event(docs, EventView::Closed(uri)).1 == Some(Seq::<char>::empty()),
{
}

} // verus!
