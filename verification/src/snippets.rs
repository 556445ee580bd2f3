//! What becomes of the tokens of a text that is put on lines of its own in another:
//! they stay, and move down by the lines in front. So wrapping a snippet in
//! `fun main` adds the tokens of the header and of the closing brace, and moves the
//! snippet's own down by one line.
use crate::token::Tok;
use vstd::prelude::*;

verus! {

use crate::lexer::{
    char_content,
    char_literal_at,
    comment_end,
    digits_end,
    exponent_end,
    fraction_end,
    ident_end,
    lemma_comment_end_bounds,
    lemma_digits_end_bounds,
    lemma_ident_end_bounds,
    lemma_line_end_bounds,
    lemma_plain_digits_end_bounds,
    lemma_radix_end_bounds,
    lemma_template_end_bounds,
    lemma_token_progress,
    lemma_trivia_end_bounds,
    line_at,
    line_end,
    newlines,
    number_at,
    peek_at,
    plain_digits_end,
    prefix_base,
    radix_end,
    string_rest,
    template_end,
    token_at,
    tokens_from,
    trivia_end,
    word_token,
};
use crate::{prepared, source_has_main};
use crate::token::{SpannedView, StrPartView, TokView};

/// Whether the text `s` stands in `t` from position `d` on, with a line break
/// behind it or the end.
pub open spec fn embedded(s: Seq<char>, t: Seq<char>, d: int) -> bool {
    &&& 0 <= d
    &&& d + s.len() <= t.len()
    &&& forall|i: int| d <= i < d + s.len() ==> #[trigger] t[i] == s[i - d]
    &&& d + s.len() < t.len() ==> t[d + s.len()] == '\n'
}

proof fn lemma_peek(s: Seq<char>, t: Seq<char>, d: int, p: int)
    requires
        embedded(s, t, d),
        0 <= p <= s.len(),
    ensures
        p < s.len() ==> peek_at(t, d + p) == peek_at(s, p),
        p == s.len() ==> (peek_at(t, d + p) == '\n' || peek_at(t, d + p) == '\0') && peek_at(s, p)
            == '\0',
{
}

proof fn lemma_line_end(s: Seq<char>, t: Seq<char>, d: int, p: int)
    requires
        embedded(s, t, d),
        0 <= p <= s.len(),
    ensures
        line_end(t, d + p) == d + line_end(s, p),
    decreases s.len() - p,
{
    if p < s.len() && s[p] != '\n' {
        assert(t[d + p] == s[p]);
        lemma_line_end(s, t, d, p + 1);
    }
}

proof fn lemma_comment_end(s: Seq<char>, t: Seq<char>, d: int, p: int, depth: int)
    requires
        embedded(s, t, d),
        0 <= p <= s.len(),
        comment_end(s, p, depth) is Some,
    ensures
        comment_end(t, d + p, depth) == Some(d + comment_end(s, p, depth)->0),
    decreases s.len() - p,
{
    if depth > 0 {
        assert(t[d + p] == s[p]);
        lemma_peek(s, t, d, p + 1);
        if s[p] == '/' && peek_at(s, p + 1) == '*' {
            lemma_comment_end(s, t, d, p + 2, depth + 1);
        } else if s[p] == '*' && peek_at(s, p + 1) == '/' {
            lemma_comment_end(s, t, d, p + 2, depth - 1);
        } else {
            lemma_comment_end(s, t, d, p + 1, depth);
        }
    }
}

proof fn lemma_trivia_end(s: Seq<char>, t: Seq<char>, d: int, p: int)
    requires
        embedded(s, t, d),
        0 <= p <= s.len(),
        trivia_end(s, p) is Some,
    ensures
        trivia_end(s, p)->0 < s.len() ==> trivia_end(t, d + p) == Some(d + trivia_end(s, p)->0),
        trivia_end(s, p)->0 >= s.len() ==> trivia_end(t, d + p) == trivia_end(t, d + s.len()),
    decreases s.len() - p,
{
    if p < s.len() {
        assert(t[d + p] == s[p]);
        lemma_peek(s, t, d, p + 1);
        if crate::lexer::is_blank(s[p]) {
            lemma_trivia_end(s, t, d, p + 1);
        } else if s[p] == '/' && peek_at(s, p + 1) == '/' {
            lemma_line_end_bounds(s, p + 1);
            lemma_line_end(s, t, d, p + 1);
            lemma_trivia_end(s, t, d, line_end(s, p + 1));
        } else if s[p] == '/' && peek_at(s, p + 1) == '*' {
            lemma_comment_end_bounds(s, p + 2, 1);
            lemma_comment_end(s, t, d, p + 2, 1);
            lemma_trivia_end(s, t, d, comment_end(s, p + 2, 1)->0);
        }
    }
}

proof fn lemma_digits_end(s: Seq<char>, t: Seq<char>, d: int, p: int)
    requires
        embedded(s, t, d),
        0 <= p <= s.len(),
    ensures
        digits_end(t, d + p) == d + digits_end(s, p),
    decreases s.len() - p,
{
    lemma_peek(s, t, d, p);
    if p < s.len() {
        assert(t[d + p] == s[p]);
        if crate::lexer::is_digit_or_sep(s[p]) {
            lemma_digits_end(s, t, d, p + 1);
        }
    }
}

proof fn lemma_plain_digits_end(s: Seq<char>, t: Seq<char>, d: int, p: int)
    requires
        embedded(s, t, d),
        0 <= p <= s.len(),
    ensures
        plain_digits_end(t, d + p) == d + plain_digits_end(s, p),
    decreases s.len() - p,
{
    if p < s.len() {
        assert(t[d + p] == s[p]);
        if crate::lexer::is_digit(s[p]) {
            lemma_plain_digits_end(s, t, d, p + 1);
        }
    }
}

proof fn lemma_radix_end(s: Seq<char>, t: Seq<char>, d: int, p: int, base: int)
    requires
        embedded(s, t, d),
        0 <= p <= s.len(),
        base <= 16,
    ensures
        radix_end(t, d + p, base) == d + radix_end(s, p, base),
    decreases s.len() - p,
{
    if p < s.len() {
        assert(t[d + p] == s[p]);
        if crate::lexer::digit_value(s[p]) < base || s[p] == '_' {
            lemma_radix_end(s, t, d, p + 1, base);
        }
    }
}

proof fn lemma_ident_end(s: Seq<char>, t: Seq<char>, d: int, p: int)
    requires
        embedded(s, t, d),
        0 <= p <= s.len(),
    ensures
        ident_end(t, d + p) == d + ident_end(s, p),
    decreases s.len() - p,
{
    if p < s.len() {
        assert(t[d + p] == s[p]);
        if crate::lexer::is_ident_char(s[p]) {
            lemma_ident_end(s, t, d, p + 1);
        }
    }
}

proof fn lemma_slice(s: Seq<char>, t: Seq<char>, d: int, p: int, q: int)
    requires
        embedded(s, t, d),
        0 <= p <= q <= s.len(),
    ensures
        t.subrange(d + p, d + q) == s.subrange(p, q),
{
    assert(t.subrange(d + p, d + q) =~= s.subrange(p, q));
}

proof fn lemma_template_end(s: Seq<char>, t: Seq<char>, d: int, p: int, depth: int)
    requires
        embedded(s, t, d),
        0 <= p <= s.len(),
        template_end(s, p, depth) is Some,
    ensures
        template_end(t, d + p, depth) == Some(d + template_end(s, p, depth)->0),
    decreases s.len() - p,
{
    if p < s.len() {
        assert(t[d + p] == s[p]);
        if s[p] == '{' {
            lemma_template_end(s, t, d, p + 1, depth + 1);
        } else if s[p] == '}' {
            if depth > 1 {
                lemma_template_end(s, t, d, p + 1, depth - 1);
            }
        } else {
            lemma_template_end(s, t, d, p + 1, depth);
        }
    }
}

proof fn lemma_string_rest(
    s: Seq<char>,
    t: Seq<char>,
    d: int,
    p: int,
    parts: Seq<StrPartView>,
    cur: Seq<char>,
)
    requires
        embedded(s, t, d),
        0 <= p <= s.len(),
        string_rest(s, p, parts, cur) is Ok,
    ensures
        string_rest(t, d + p, parts, cur) == Ok::<_, Seq<char>>(
            (
                string_rest(s, p, parts, cur)->Ok_0.0,
                d + string_rest(s, p, parts, cur)->Ok_0.1,
            ),
        ),
    decreases s.len() - p,
{
    if p < s.len() {
        assert(t[d + p] == s[p]);
        if s[p] == '"' {
        } else if s[p] == '\\' {
            lemma_peek(s, t, d, p + 1);
            lemma_string_rest(
                s,
                t,
                d,
                p + 2,
                parts,
                cur.push(crate::lexer::string_escape(peek_at(s, p + 1))),
            );
        } else if s[p] == '$' {
            lemma_peek(s, t, d, p + 1);
            if peek_at(s, p + 1) == '{' {
                lemma_template_end_bounds(s, p + 2, 1);
                lemma_template_end(s, t, d, p + 2, 1);
                let q = template_end(s, p + 2, 1)->0;
                lemma_slice(s, t, d, p + 2, q);
                lemma_string_rest(
                    s,
                    t,
                    d,
                    q + 1,
                    crate::lexer::flushed(parts, cur).push(
                        StrPartView::Expr(s.subrange(p + 2, q)),
                    ),
                    Seq::empty(),
                );
            } else {
                let e = ident_end(s, p + 1);
                lemma_ident_end_bounds(s, p + 1);
                lemma_ident_end(s, t, d, p + 1);
                lemma_slice(s, t, d, p + 1, e);
                if !crate::lexer::is_ident_start(crate::lexer::peek_at(s, p + 1)) {
                    lemma_string_rest(
                        s,
                        t,
                        d,
                        p + 1,
                        crate::lexer::flushed(parts, cur),
                        seq!['$'],
                    );
                } else {
                    lemma_string_rest(
                        s,
                        t,
                        d,
                        e,
                        crate::lexer::flushed(parts, cur).push(
                            StrPartView::Expr(s.subrange(p + 1, e)),
                        ),
                        Seq::empty(),
                    );
                }
            }
        } else {
            lemma_string_rest(s, t, d, p + 1, parts, cur.push(s[p]));
        }
    }
}

proof fn lemma_number(s: Seq<char>, t: Seq<char>, d: int, p: int)
    requires
        embedded(s, t, d),
        0 <= p < s.len(),
    ensures
        number_at(t, d + p) == (number_at(s, p).0, d + number_at(s, p).1),
{
    lemma_peek(s, t, d, p);
    lemma_peek(s, t, d, p + 1);
    if p + 2 <= s.len() {
        lemma_peek(s, t, d, p + 2);
    }
    assert(prefix_base(t, d + p) == prefix_base(s, p));
    let base = prefix_base(s, p);
    if base != 10 {
        let e = radix_end(s, p + 2, base);
        lemma_radix_end_bounds(s, p + 2, base);
        lemma_radix_end(s, t, d, p + 2, base);
        lemma_slice(s, t, d, p + 2, e);
        lemma_peek(s, t, d, e);
    } else {
        let whole = digits_end(s, p);
        lemma_digits_end_bounds(s, p);
        lemma_digits_end(s, t, d, p);
        lemma_peek(s, t, d, whole);
        if whole < s.len() {
            lemma_peek(s, t, d, whole + 1);
            lemma_digits_end_bounds(s, whole + 1);
            lemma_digits_end(s, t, d, whole + 1);
        }
        let f = fraction_end(s, whole);
        assert(fraction_end(t, d + whole) == d + f);
        assert(whole <= f <= s.len());
        lemma_peek(s, t, d, f);
        if f < s.len() {
            lemma_peek(s, t, d, f + 1);
            lemma_plain_digits_end_bounds(s, f + 1);
            lemma_plain_digits_end(s, t, d, f + 1);
            if f + 1 < s.len() {
                lemma_plain_digits_end_bounds(s, f + 2);
                lemma_plain_digits_end(s, t, d, f + 2);
            }
        }
        let e = exponent_end(s, f);
        assert(exponent_end(t, d + f) == d + e);
        assert(f <= e <= s.len());
        lemma_slice(s, t, d, p, e);
        lemma_peek(s, t, d, e);
    }
}

proof fn lemma_char_literal(s: Seq<char>, t: Seq<char>, d: int, p: int)
    requires
        embedded(s, t, d),
        0 <= p < s.len(),
        char_literal_at(s, p) is Ok,
    ensures
        char_literal_at(t, d + p) == Ok::<_, Seq<char>>(
            (char_literal_at(s, p)->Ok_0.0, d + char_literal_at(s, p)->Ok_0.1),
        ),
{
    assert(t[d + p + 1] == s[p + 1]);
    let (code, q) = char_content(s, p + 1)->Ok_0;
    assert(q < s.len());
    assert(peek_at(t, d + q) == peek_at(s, q)) by {
        lemma_peek(s, t, d, q);
    }
    if s[p + 1] == '\\' {
        lemma_peek(s, t, d, p + 2);
        if peek_at(s, p + 2) == 'u' {
            lemma_peek(s, t, d, p + 3);
            lemma_peek(s, t, d, p + 4);
            lemma_peek(s, t, d, p + 5);
            lemma_peek(s, t, d, p + 6);
        }
    }
    assert(char_content(t, d + p + 1) == Ok::<_, Seq<char>>((code, d + q)));
}

proof fn lemma_token(s: Seq<char>, t: Seq<char>, d: int, p: int)
    requires
        embedded(s, t, d),
        0 <= p < s.len(),
        token_at(s, p) is Ok,
    ensures
        token_at(t, d + p) == Ok::<_, Seq<char>>(
            (token_at(s, p)->Ok_0.0, d + token_at(s, p)->Ok_0.1),
        ),
{
    assert(t[d + p] == s[p]);
    let c = s[p];
    if crate::lexer::is_digit(c) {
        lemma_number(s, t, d, p);
    } else if c == '"' {
        lemma_string_rest(s, t, d, p + 1, Seq::empty(), Seq::empty());
    } else if c == '\'' {
        lemma_char_literal(s, t, d, p);
    } else if crate::lexer::is_ident_start(c) {
        lemma_ident_end_bounds(s, p);
        lemma_ident_end(s, t, d, p);
        lemma_slice(s, t, d, p, ident_end(s, p));
    } else {
        lemma_peek(s, t, d, p + 1);
    }
}

proof fn lemma_newlines(s: Seq<char>, t: Seq<char>, d: int, p: int)
    requires
        embedded(s, t, d),
        0 <= p <= s.len(),
    ensures
        newlines(t, d + p) == newlines(t, d) + newlines(s, p),
    decreases p,
{
    if p > 0 {
        lemma_newlines(s, t, d, p - 1);
        assert(t[d + (p - 1)] == s[p - 1]);
    }
}

/// Tokens moved down by `n` lines.
pub open spec fn moved_down(toks: Seq<SpannedView>, n: int) -> Seq<SpannedView> {
    toks.map_values(|t: SpannedView| SpannedView { tok: t.tok, line: t.line + n })
}

/// The tokens of a text that stands in another, from position `p` on: those of
/// the text by itself but for its end marker, moved down by the lines in front,
/// and then those of what follows.
proof fn lemma_embedded_tokens(s: Seq<char>, t: Seq<char>, d: int, p: int)
    requires
        embedded(s, t, d),
        0 <= p <= s.len(),
        tokens_from(s, p) is Ok,
        tokens_from(t, d + s.len()) is Ok,
    ensures
        tokens_from(t, d + p) == Ok::<_, Seq<char>>(
            moved_down(tokens_from(s, p)->Ok_0.drop_last(), newlines(t, d)) + tokens_from(
                t,
                d + s.len(),
            )->Ok_0,
        ),
    decreases s.len() - p,
{
    let n = newlines(t, d);
    let tail = tokens_from(t, d + s.len())->Ok_0;
    let q = trivia_end(s, p)->0;
    lemma_trivia_end_bounds(s, p);
    lemma_trivia_end(s, t, d, p);
    let all = tokens_from(s, p)->Ok_0;
    if q >= s.len() {
        assert(all.drop_last() =~= Seq::empty());
        assert(moved_down(all.drop_last(), n) + tail =~= tail);
        assert(tokens_from(t, d + p) == tokens_from(t, d + s.len()));
    } else {
        let (k, r) = token_at(s, q)->Ok_0;
        lemma_token_progress(s, q);
        lemma_token(s, t, d, q);
        lemma_newlines(s, t, d, q);
        lemma_embedded_tokens(s, t, d, r);
        let rest = tokens_from(s, r)->Ok_0;
        let first = SpannedView { tok: k, line: line_at(s, q) };
        crate::lexer::law_end_marker_is_last(s, r);
        assert(all == seq![first] + rest);
        assert(all.drop_last() =~= seq![first] + rest.drop_last());
        let there = SpannedView { tok: k, line: line_at(t, d + q) };
        assert(there == (SpannedView { tok: first.tok, line: first.line + n }));
        assert(moved_down(all.drop_last(), n) + tail =~= seq![there] + (moved_down(
            rest.drop_last(),
            n,
        ) + tail));
    }
}

/// A text that tokenises, a line break, and another that does, tokenise to the
/// tokens of the first without its end marker and those of the second, moved down
/// by the lines of the first.
pub proof fn law_tokens_of_joined_texts(a: Seq<char>, b: Seq<char>)
    requires
        tokens_from(a, 0) is Ok,
        tokens_from(b, 0) is Ok,
    ensures
        tokens_from(a + seq!['\n'] + b, 0) == Ok::<_, Seq<char>>(
            tokens_from(a, 0)->Ok_0.drop_last() + moved_down(
                tokens_from(b, 0)->Ok_0,
                line_at(a, a.len() as int),
            ),
        ),
{
    let t = a + seq!['\n'] + b;
    let d = a.len() + 1;
    let first = tokens_from(a, 0)->Ok_0;
    let second = tokens_from(b, 0)->Ok_0;
    assert(embedded(a, t, 0));
    assert(embedded(b, t, d as int));
    lemma_newlines(a, t, 0, a.len() as int);
    assert(t[a.len() as int] == '\n');
    assert(newlines(t, d as int) == line_at(a, a.len() as int));
    let n = newlines(t, d as int);
    let end = seq![plain_token(Tok::Eof, line_at(t, t.len() as int))];
    assert(tokens_from(t, t.len() as int) == Ok::<_, Seq<char>>(end));
    lemma_embedded_tokens(b, t, d as int, 0);
    lemma_newlines(b, t, d as int, b.len() as int);
    crate::lexer::law_end_marker_is_last(b, 0);
    assert(second.last() == plain_token(Tok::Eof, line_at(b, b.len() as int)));
    assert(moved_down(second.drop_last(), n) + end =~= moved_down(second, n));
    assert(trivia_end(t, a.len() as int) == trivia_end(t, d as int));
    assert(tokens_from(t, a.len() as int) == tokens_from(t, d as int));
    lemma_embedded_tokens(a, t, 0, 0);
    assert(moved_down(first.drop_last(), 0) =~= first.drop_last());
}

/// A marked token.
pub open spec fn plain_token(t: Tok, line: int) -> SpannedView {
    SpannedView { tok: TokView::Plain(t), line }
}

/// The tokens of the `fun main() {` header.
pub open spec fn header_tokens() -> Seq<SpannedView> {
    seq![
        plain_token(Tok::Fun, 1),
        SpannedView { tok: TokView::Ident("main"@), line: 1 },
        plain_token(Tok::LParen, 1),
        plain_token(Tok::RParen, 1),
        plain_token(Tok::LBrace, 1),
    ]
}

/// The tokens behind a wrapped snippet of `n` lines: the closing brace and the
/// end marker.
pub open spec fn footer_tokens(n: int) -> Seq<SpannedView> {
    seq![plain_token(Tok::RBrace, n + 2), plain_token(Tok::Eof, n + 3)]
}

proof fn lemma_footer(src: Seq<char>, t: Seq<char>)
    requires
        !source_has_main(src),
        t == prepared(src),
    ensures
        embedded(src, t, 13),
        newlines(t, 13) == 1,
        tokens_from(t, 13int + src.len()) == Ok::<_, Seq<char>>(
            footer_tokens(line_at(src, src.len() as int)),
        ),
{
    let d = 13int;
    let e = d + src.len();
    reveal_strlit("fun main() {\n");
    reveal_strlit("\n}\n");
    assert(t.len() == e + 3);
    assert(t[e] == '\n' && t[e + 1] == '}' && t[e + 2] == '\n');
    assert(embedded(src, t, d));
    assert(t[12] == '\n');
    assert(newlines(t, 12) == 0) by {
        reveal_with_fuel(newlines, 13);
    }
    assert(newlines(t, 13) == 1);
    lemma_newlines(src, t, d, src.len() as int);
    assert(trivia_end(t, e) == Some(e + 1)) by {
        reveal_with_fuel(trivia_end, 3);
    }
    assert(token_at(t, e + 1) == Ok::<_, Seq<char>>((TokView::Plain(Tok::RBrace), e + 2)));
    assert(trivia_end(t, e + 2) == Some(e + 3)) by {
        reveal_with_fuel(trivia_end, 3);
    }
    assert(newlines(t, e + 1) == newlines(t, e) + 1);
    assert(newlines(t, e + 2) == newlines(t, e + 1));
    assert(newlines(t, e + 3) == newlines(t, e + 2) + 1);
    let end = seq![plain_token(Tok::Eof, line_at(t, e + 3))];
    assert(tokens_from(t, e + 2) == Ok::<_, Seq<char>>(end));
    let brace = seq![plain_token(Tok::RBrace, line_at(t, e + 1))];
    assert(tokens_from(t, e) == Ok::<_, Seq<char>>(brace + end));
    assert(brace + end =~= footer_tokens(line_at(src, src.len() as int)));
}

proof fn lemma_header(src: Seq<char>, t: Seq<char>)
    requires
        !source_has_main(src),
        t == prepared(src),
        tokens_from(t, 13) is Ok,
    ensures
        tokens_from(t, 0) == Ok::<_, Seq<char>>(header_tokens() + tokens_from(t, 13)->Ok_0),
{
    reveal_strlit("fun main() {\n");
    reveal_strlit("fun");
    reveal_strlit("main");
    assert(t[0] == 'f' && t[1] == 'u' && t[2] == 'n' && t[3] == ' ');
    assert(t[4] == 'm' && t[5] == 'a' && t[6] == 'i' && t[7] == 'n' && t[8] == '(');
    assert(t[9] == ')' && t[10] == ' ' && t[11] == '{' && t[12] == '\n');
    assert(newlines(t, 11) == 0 && newlines(t, 9) == 0 && newlines(t, 8) == 0 && newlines(t, 4)
        == 0) by {
        reveal_with_fuel(newlines, 12);
    }
    let rest = tokens_from(t, 13)->Ok_0;
    assert(trivia_end(t, 12) == trivia_end(t, 13));
    assert(tokens_from(t, 12) == tokens_from(t, 13));
    assert(trivia_end(t, 10) == Some(11int)) by {
        reveal_with_fuel(trivia_end, 3);
    }
    assert(token_at(t, 11) == Ok::<_, Seq<char>>((TokView::Plain(Tok::LBrace), 12int)));
    let t5 = seq![plain_token(Tok::LBrace, 1)] + rest;
    assert(tokens_from(t, 10) == Ok::<_, Seq<char>>(t5));
    assert(trivia_end(t, 9) == Some(9int));
    assert(token_at(t, 9) == Ok::<_, Seq<char>>((TokView::Plain(Tok::RParen), 10int)));
    let t4 = seq![plain_token(Tok::RParen, 1)] + t5;
    assert(tokens_from(t, 9) == Ok::<_, Seq<char>>(t4));
    assert(trivia_end(t, 8) == Some(8int));
    assert(token_at(t, 8) == Ok::<_, Seq<char>>((TokView::Plain(Tok::LParen), 9int)));
    let t3 = seq![plain_token(Tok::LParen, 1)] + t4;
    assert(tokens_from(t, 8) == Ok::<_, Seq<char>>(t3));
    assert(trivia_end(t, 3) == Some(4int)) by {
        reveal_with_fuel(trivia_end, 3);
    }
    assert(ident_end(t, 4) == 8 && ident_end(t, 0) == 3) by {
        reveal_with_fuel(ident_end, 6);
    }
    assert(t.subrange(4, 8) =~= "main"@);
    assert(t.subrange(0, 3) =~= "fun"@);
    lemma_main_is_a_name();
    assert(token_at(t, 4) == Ok::<_, Seq<char>>((TokView::Ident("main"@), 8int)));
    let t2 = seq![SpannedView { tok: TokView::Ident("main"@), line: 1 }] + t3;
    assert(tokens_from(t, 3) == Ok::<_, Seq<char>>(t2));
    assert(trivia_end(t, 0) == Some(0int));
    assert(token_at(t, 0) == Ok::<_, Seq<char>>((TokView::Plain(Tok::Fun), 3int)));
    let t1 = seq![plain_token(Tok::Fun, 1)] + t2;
    assert(tokens_from(t, 0) == Ok::<_, Seq<char>>(t1));
    assert(t1 =~= header_tokens() + rest);
}

/// A snippet that lexes still lexes when it is wrapped: its tokens, moved down
/// by the line of the header, stand between those of the header and of the
/// closing brace.
pub proof fn law_wrapping_keeps_the_tokens(src: Seq<char>)
    requires
        tokens_from(src, 0) is Ok,
        !source_has_main(src),
    ensures
        tokens_from(prepared(src), 0) == Ok::<_, Seq<char>>(
            header_tokens() + (moved_down(tokens_from(src, 0)->Ok_0.drop_last(), 1)
                + footer_tokens(line_at(src, src.len() as int))),
        ),
        source_has_main(prepared(src)),
{
    let t = prepared(src);
    lemma_footer(src, t);
    lemma_embedded_tokens(src, t, 13, 0);
    lemma_header(src, t);
    let toks = tokens_from(t, 0)->Ok_0;
    assert(toks[0].tok == TokView::Plain(Tok::Fun));
    assert(toks[1].tok == TokView::Ident("main"@));
}

proof fn lemma_main_is_a_name()
    ensures
        word_token("main"@) == TokView::Ident("main"@),
{
    reveal_strlit("main");
    reveal_strlit("fun");
    reveal_strlit("val");
    reveal_strlit("var");
    reveal_strlit("if");
    reveal_strlit("else");
    reveal_strlit("while");
    reveal_strlit("for");
    reveal_strlit("in");
    reveal_strlit("return");
    reveal_strlit("until");
    reveal_strlit("downTo");
    reveal_strlit("step");
    reveal_strlit("when");
    reveal_strlit("is");
    reveal_strlit("break");
    reveal_strlit("continue");
    reveal_strlit("null");
    reveal_strlit("true");
    reveal_strlit("false");
    assert("main"@[0] == 'm');
    assert("else"@[0] == 'e');
    assert("step"@[0] == 's');
    assert("when"@[0] == 'w');
    assert("null"@[0] == 'n');
    assert("true"@[0] == 't');
}

/// A source that lexes is given a `main`, and keeps the one it declares: what is
/// run declares `main`, holds the source, and is prepared already.
pub proof fn law_preparing_is_idempotent(src: Seq<char>)
    requires
        tokens_from(src, 0) is Ok,
    ensures
        source_has_main(prepared(src)),
        source_has_main(src) ==> prepared(src) == src,
        exists|d: int|
            0 <= d <= d + src.len() <= prepared(src).len() && #[trigger] prepared(src).subrange(
                d,
                d + src.len(),
            ) == src,
        prepared(prepared(src)) == prepared(src),
{
    let t = prepared(src);
    if source_has_main(src) {
        assert(t.subrange(0, 0int + src.len()) =~= src);
    } else {
        law_wrapping_keeps_the_tokens(src);
        let d = "fun main() {\n"@.len() as int;
        assert(t.subrange(d, d + src.len()) =~= src);
    }
}

} // verus!
