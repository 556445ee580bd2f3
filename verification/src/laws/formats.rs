//! What a program may rely on when it formats a text with `format`.
use crate::host::HostView;
use crate::value::Value;
use vstd::prelude::*;

verus! {

use crate::display::text_of;
use crate::double::fixed_text;
use crate::format::{
    before, decorated, directive_at, flags_stop, formatted, formatted_from, grouped_digits,
    is_flag, piece, DirectiveView, FormattedView, PieceView,
};
use crate::lexer::digits_number;
use crate::numtext::digits_stop;
use crate::radix::lemma_nat_digits_read_back;
use crate::value::code_of;

// ── Texts ───────────────────────────────────────────────────────────────────

/// Whether a text holds no directive.
pub open spec fn is_plain(s: Seq<char>) -> bool {
    forall|i: int| 0 <= i < s.len() ==> s[i] != '%'
}

proof fn lemma_plain_part(
    h: HostView,
    s: Seq<char>,
    p: int,
    q: int,
    args: Seq<Value>,
    ai: int,
    log: Seq<Seq<char>>,
)
    requires
        0 <= p <= q <= s.len(),
        is_plain(s.subrange(p, q)),
    ensures
        formatted_from(h, s, p, args, ai, log, 0) == before(
            s.subrange(p, q),
            formatted_from(h, s, q, args, ai, log, 0),
        ),
    decreases q - p,
{
    let t = s.subrange(p, q);
    let r = formatted_from(h, s, q, args, ai, log, 0);
    if p < q {
        assert(t[0] == s[p]);
        let u = s.subrange(p + 1, q);
        assert forall|i: int| 0 <= i < u.len() implies u[i] != '%' by {
            assert(u[i] == t[i + 1]);
        }
        lemma_plain_part(h, s, p + 1, q, args, ai, log);
        assert(t =~= seq![s[p]] + u);
        if r is Done {
            assert(seq![s[p]] + (u + r->Done_0) =~= t + r->Done_0);
        }
    } else {
        if r is Done {
            assert(t + r->Done_0 =~= r->Done_0);
        }
    }
}

/// A text without a directive is formatted as itself, whatever the arguments.
pub proof fn law_plain_texts(h: HostView, s: Seq<char>, args: Seq<Value>, log: Seq<Seq<char>>)
    requires
        is_plain(s),
    ensures
        formatted(h, s, args, log) == FormattedView::Done(s),
{
    assert(s.subrange(0, s.len() as int) =~= s);
    lemma_plain_part(h, s, 0, s.len() as int, args, 0, log);
    assert(s + Seq::<char>::empty() =~= s);
}

// ── Directives ──────────────────────────────────────────────────────────────

/// Whether a character is a conversion rather than a part of what stands before
/// one.
pub open spec fn is_conversion(c: char) -> bool {
    !is_flag(c) && c != '.' && !('0' <= c <= '9')
}

/// A directive without flags, width or precision.
pub open spec fn bare(c: char, next: int) -> DirectiveView {
    DirectiveView {
        left: false,
        zero: false,
        plus: false,
        space: false,
        group: false,
        width: 0,
        prec: None,
        conv: c,
        next,
    }
}

proof fn lemma_bare(s: Seq<char>, p: int)
    requires
        0 <= p < s.len(),
        is_conversion(s[p]),
    ensures
        directive_at(s, p) == Ok::<DirectiveView, Seq<char>>(bare(s[p], p + 1)),
{
    assert(s.subrange(p, p) =~= Seq::<char>::empty());
}

proof fn lemma_flags_end(s: Seq<char>, p: int, f: int)
    requires
        0 <= p <= f <= s.len(),
        forall|i: int| p <= i < f ==> is_flag(#[trigger] s[i]),
        f < s.len() ==> !is_flag(s[f]),
    ensures
        flags_stop(s, p) == f,
    decreases f - p,
{
    if p < f {
        lemma_flags_end(s, p + 1, f);
    }
}

proof fn lemma_digits_end(s: Seq<char>, p: int, f: int)
    requires
        0 <= p <= f <= s.len(),
        forall|i: int| p <= i < f ==> '0' <= #[trigger] s[i] <= '9',
        f < s.len() ==> !('0' <= s[f] <= '9'),
    ensures
        digits_stop(s, p) == f,
    decreases f - p,
{
    if p < f {
        lemma_digits_end(s, p + 1, f);
    }
}

/// A directive is its flags in any order, a width, a precision behind a point, and
/// its conversion: each is read as it is written, and what follows is left for
/// later.
#[verifier::rlimit(50)]
pub proof fn law_directives_are_read(
    pre: Seq<char>,
    flags: Seq<char>,
    width: Seq<char>,
    prec: Seq<char>,
    c: char,
    post: Seq<char>,
)
    requires
        forall|i: int| 0 <= i < flags.len() ==> is_flag(#[trigger] flags[i]),
        forall|i: int| 0 <= i < width.len() ==> '0' <= #[trigger] width[i] <= '9',
        forall|i: int| 0 <= i < prec.len() ==> '0' <= #[trigger] prec[i] <= '9',
        width.len() > 0,
        width[0] != '0',
        prec.len() > 0,
        digits_number(width, 10) <= i32::MAX,
        digits_number(prec, 10) <= i32::MAX,
        is_conversion(c),
    ensures
        directive_at(
            pre + flags + width + seq!['.'] + prec + seq![c] + post,
            pre.len() as int,
        ) == Ok::<DirectiveView, Seq<char>>(
            DirectiveView {
                left: flags.contains('-'),
                zero: flags.contains('0'),
                plus: flags.contains('+'),
                space: flags.contains(' '),
                group: flags.contains(','),
                width: digits_number(width, 10),
                prec: Some(digits_number(prec, 10)),
                conv: c,
                next: (pre.len() + flags.len() + width.len() + prec.len() + 2) as int,
            },
        ),
{
    let s = pre + flags + width + seq!['.'] + prec + seq![c] + post;
    let p = pre.len() as int;
    let f = p + flags.len();
    let w = f + width.len();
    let q = w + 1 + prec.len();
    assert forall|i: int| p <= i < f implies is_flag(#[trigger] s[i]) by {
        assert(s[i] == flags[i - p]);
    }
    assert(s[f] == width[0]);
    assert('0' <= width[0] <= '9');
    lemma_flags_end(s, p, f);
    assert forall|i: int| f <= i < w implies '0' <= #[trigger] s[i] <= '9' by {
        assert(s[i] == width[i - f]);
    }
    assert(s[w] == '.');
    lemma_digits_end(s, f, w);
    assert forall|i: int| w + 1 <= i < q implies '0' <= #[trigger] s[i] <= '9' by {
        assert(s[i] == prec[i - w - 1]);
    }
    assert(s[q] == c);
    lemma_digits_end(s, w + 1, q);
    assert(s.subrange(p, f) =~= flags);
    assert(s.subrange(f, w) =~= width);
    assert(s.subrange(w + 1, q) =~= prec);
}

// ── Conversions ─────────────────────────────────────────────────────────────

proof fn lemma_one(
    h: HostView,
    pre: Seq<char>,
    c: char,
    post: Seq<char>,
    args: Seq<Value>,
    log: Seq<Seq<char>>,
)
    requires
        is_plain(pre),
        is_plain(post),
        is_conversion(c),
        c != 'e' && c != 'E',
    ensures
        ({
            let s = pre + seq!['%', c] + post;
            match piece(h, bare(c, pre.len() + 2int), seq!['%', c], args, 0, log, 0) {
                PieceView::Fault(m) => formatted(h, s, args, log) == FormattedView::Fault(m),
                PieceView::Render(v, n) => formatted(h, s, args, log) == FormattedView::Render(v, n),
                PieceView::Text(t, _, _) => formatted(h, s, args, log) == FormattedView::Done(
                    pre + t + post,
                ),
            }
        }),
{
    let s = pre + seq!['%', c] + post;
    let k = pre.len() as int;
    assert(s.subrange(0, k) =~= pre);
    lemma_plain_part(h, s, 0, k, args, 0, log);
    assert(s[k] == '%' && s[k + 1] == c);
    lemma_bare(s, k + 1);
    assert(s.subrange(k, k + 2) =~= seq!['%', c]);
    match piece(h, bare(c, pre.len() + 2int), seq!['%', c], args, 0, log, 0) {
        PieceView::Text(t, a, r) => {
            assert(r == 0);
            assert(s.subrange(k + 2, s.len() as int) =~= post);
            lemma_plain_part(h, s, k + 2, s.len() as int, args, a, log);
            let end = formatted_from(h, s, s.len() as int, args, a, log, 0);
            assert(end == FormattedView::Done(Seq::empty()));
            assert(pre + (t + (post + Seq::<char>::empty())) =~= pre + t + post);
        },
        _ => {},
    }
}

/// `%s` stands for the printed form of its argument and `%d` for an integer, where
/// they stand in the text.
pub proof fn law_texts_and_integers(
    h: HostView,
    pre: Seq<char>,
    post: Seq<char>,
    v: Value,
    n: i64,
    log: Seq<Seq<char>>,
)
    requires
        is_plain(pre),
        is_plain(post),
    ensures
        formatted(h, pre + seq!['%', 's'] + post, seq![v], log) == FormattedView::Done(
            pre + text_of(h, v) + post,
        ),
        formatted(h, pre + seq!['%', 'd'] + post, seq![Value::Int(n)], log) == FormattedView::Done(
            pre + text_of(h, Value::Int(n)) + post,
        ),
{
    lemma_one(h, pre, 's', post, seq![v], log);
    lemma_one(h, pre, 'd', post, seq![Value::Int(n)], log);
}

/// `%%` and `%n` take no argument: they stand for the percent sign and a line
/// break.
pub proof fn law_signs_and_breaks(
    h: HostView,
    pre: Seq<char>,
    post: Seq<char>,
    args: Seq<Value>,
    log: Seq<Seq<char>>,
)
    requires
        is_plain(pre),
        is_plain(post),
    ensures
        formatted(h, pre + seq!['%', '%'] + post, args, log) == FormattedView::Done(
            pre + seq!['%'] + post,
        ),
        formatted(h, pre + seq!['%', 'n'] + post, args, log) == FormattedView::Done(
            pre + seq!['\n'] + post,
        ),
{
    lemma_one(h, pre, '%', post, args, log);
    lemma_one(h, pre, 'n', post, args, log);
}

/// `%c` stands for a character, given as one or by its code, and `%b` for whether
/// its argument is neither null nor `false`.
pub proof fn law_characters_and_truth(
    h: HostView,
    pre: Seq<char>,
    post: Seq<char>,
    v: Value,
    c: char,
    b: bool,
    log: Seq<Seq<char>>,
)
    requires
        is_plain(pre),
        is_plain(post),
        code_of(v) == Some(c as int),
    ensures
        formatted(h, pre + seq!['%', 'c'] + post, seq![v], log) == FormattedView::Done(
            pre + seq![c] + post,
        ),
        formatted(h, pre + seq!['%', 'b'] + post, seq![Value::Bool(b)], log)
            == FormattedView::Done(
            pre + (if b {
                "true"@
            } else {
                "false"@
            }) + post,
        ),
        formatted(h, pre + seq!['%', 'b'] + post, seq![Value::Undef], log)
            == FormattedView::Done(pre + "false"@ + post),
        formatted(h, pre + seq!['%', 'b'] + post, seq![v], log) == FormattedView::Done(
            pre + "true"@ + post,
        ),
{
    lemma_one(h, pre, 'c', post, seq![v], log);
    lemma_one(h, pre, 'b', post, seq![Value::Bool(b)], log);
    lemma_one(h, pre, 'b', post, seq![Value::Undef], log);
    lemma_one(h, pre, 'b', post, seq![v], log);
    crate::text::lemma_char_code(c);
}

/// `%x` writes an integer in base sixteen and `%o` in base eight: read back in that
/// base, the digits are the number.
pub proof fn law_other_bases(
    h: HostView,
    pre: Seq<char>,
    post: Seq<char>,
    n: i64,
    log: Seq<Seq<char>>,
) -> (r: (Seq<char>, Seq<char>))
    requires
        is_plain(pre),
        is_plain(post),
        n >= 0,
    ensures
        formatted(h, pre + seq!['%', 'x'] + post, seq![Value::Int(n)], log) == FormattedView::Done(
            pre + r.0 + post,
        ),
        formatted(h, pre + seq!['%', 'o'] + post, seq![Value::Int(n)], log) == FormattedView::Done(
            pre + r.1 + post,
        ),
        digits_number(r.0, 16) == n,
        digits_number(r.1, 8) == n,
{
    lemma_one(h, pre, 'x', post, seq![Value::Int(n)], log);
    lemma_one(h, pre, 'o', post, seq![Value::Int(n)], log);
    lemma_nat_digits_read_back(n as nat, 16);
    lemma_nat_digits_read_back(n as nat, 8);
    (crate::radix::nat_digits(n as nat, 16), crate::radix::nat_digits(n as nat, 8))
}

/// `%f` writes a double with six digits behind the point, or with as many as its
/// precision says; a precision cuts a text to so many characters.
pub proof fn law_precisions(
    h: HostView,
    pre: Seq<char>,
    post: Seq<char>,
    id: usize,
    v: Value,
    prec: nat,
    log: Seq<Seq<char>>,
)
    requires
        is_plain(pre),
        is_plain(post),
    ensures
        formatted(h, pre + seq!['%', 'f'] + post, seq![Value::Float(id)], log)
            == FormattedView::Done(pre + fixed_text(h.double(id), 6) + post),
        ({
            let d = DirectiveView { prec: Some(prec as int), ..bare('f', 0) };
            piece(h, d, Seq::empty(), seq![Value::Float(id)], 0, log, 0) == PieceView::Text(
                fixed_text(h.double(id), prec as int),
                1,
                0,
            )
        }),
        ({
            let d = DirectiveView { prec: Some(prec as int), ..bare('s', 0) };
            let t = text_of(h, v);
            !(v is Undef) ==> piece(h, d, Seq::empty(), seq![v], 0, log, 0) == PieceView::Text(
                if prec < t.len() {
                    t.take(prec as int)
                } else {
                    t
                },
                1,
                0,
            )
        }),
{
    lemma_one(h, pre, 'f', post, seq![Value::Float(id)], log);
}

/// A directive without an argument left for it, and one whose argument is of
/// another kind, are faults.
pub proof fn law_faults(
    h: HostView,
    pre: Seq<char>,
    post: Seq<char>,
    id: usize,
    b: bool,
    log: Seq<Seq<char>>,
)
    requires
        is_plain(pre),
        is_plain(post),
    ensures
        formatted(h, pre + seq!['%', 's'] + post, Seq::empty(), log) == FormattedView::Fault(
            "java.util.MissingFormatArgumentException: Format specifier '"@ + seq!['%', 's'] + "'"@,
        ),
        formatted(h, pre + seq!['%', 'd'] + post, seq![Value::Str(id)], log)
            == FormattedView::Fault(
            "java.util.IllegalFormatConversionException: "@ + seq!['d'] + " != "@
                + "java.lang.String"@,
        ),
        formatted(h, pre + seq!['%', 'd'] + post, seq![Value::Bool(b)], log)
            == FormattedView::Fault(
            "java.util.IllegalFormatConversionException: "@ + seq!['d'] + " != "@
                + "java.lang.Boolean"@,
        ),
        formatted(h, pre + seq!['%', 'f'] + post, seq![Value::Str(id)], log)
            == FormattedView::Fault(
            "java.util.IllegalFormatConversionException: "@ + seq!['f'] + " != "@
                + "java.lang.String"@,
        ),
        formatted(h, pre + seq!['%', 'q'] + post, seq![Value::Str(id)], log)
            == FormattedView::Fault(
            "java.util.UnknownFormatConversionException: Conversion = '"@ + seq!['q'] + "'"@,
        ),
{
    lemma_one(h, pre, 's', post, Seq::empty(), log);
    lemma_one(h, pre, 'd', post, seq![Value::Str(id)], log);
    lemma_one(h, pre, 'd', post, seq![Value::Bool(b)], log);
    lemma_one(h, pre, 'f', post, seq![Value::Str(id)], log);
    lemma_one(h, pre, 'q', post, seq![Value::Str(id)], log);
}

/// Directives take the arguments in order.
pub proof fn law_arguments_in_order(
    h: HostView,
    pre: Seq<char>,
    mid: Seq<char>,
    post: Seq<char>,
    a: Value,
    b: Value,
    log: Seq<Seq<char>>,
)
    requires
        is_plain(pre),
        is_plain(mid),
        is_plain(post),
    ensures
        formatted(h, pre + seq!['%', 's'] + mid + seq!['%', 's'] + post, seq![a, b], log)
            == FormattedView::Done(pre + text_of(h, a) + mid + text_of(h, b) + post),
{
    let s = pre + seq!['%', 's'] + mid + seq!['%', 's'] + post;
    let args = seq![a, b];
    let k = pre.len() as int;
    let m = k + 2 + mid.len();
    let n = s.len() as int;
    assert(s.subrange(0, k) =~= pre);
    lemma_plain_part(h, s, 0, k, args, 0, log);
    assert(s[k] == '%' && s[k + 1] == 's');
    lemma_bare(s, k + 1);
    assert(s.subrange(k + 2, m) =~= mid);
    lemma_plain_part(h, s, k + 2, m, args, 1, log);
    assert(s[m] == '%' && s[m + 1] == 's');
    lemma_bare(s, m + 1);
    assert(s.subrange(m + 2, n) =~= post);
    lemma_plain_part(h, s, m + 2, n, args, 2, log);
    let x = text_of(h, a);
    let y = text_of(h, b);
    let none = Seq::<char>::empty();
    assert(piece(h, bare('s', k + 2), s.subrange(k, k + 2), args, 0, log, 0) == PieceView::Text(
        x,
        1,
        0,
    ));
    assert(piece(h, bare('s', m + 2), s.subrange(m, m + 2), args, 1, log, 0) == PieceView::Text(
        y,
        2,
        0,
    ));
    assert(formatted_from(h, s, n, args, 2, log, 0) == FormattedView::Done(none));
    assert(formatted_from(h, s, m + 2, args, 2, log, 0) == FormattedView::Done(post + none));
    assert(formatted_from(h, s, m, args, 1, log, 0) == FormattedView::Done(y + (post + none)));
    assert(formatted_from(h, s, k + 2, args, 1, log, 0) == FormattedView::Done(
        mid + (y + (post + none)),
    ));
    assert(formatted_from(h, s, k, args, 0, log, 0) == FormattedView::Done(
        x + (mid + (y + (post + none))),
    ));
    assert(pre + (x + (mid + (y + (post + none)))) =~= pre + x + mid + y + post);
}

// ── Widths and signs ────────────────────────────────────────────────────────

proof fn lemma_copies(c: char, n: int)
    requires
        n >= 0,
    ensures
        crate::format::copies(c, n) == Seq::new(n as nat, |i: int| c),
    decreases n,
{
    if n > 0 {
        lemma_copies(c, n - 1);
        assert(crate::format::copies(c, n) =~= Seq::new(n as nat, |i: int| c));
    } else {
        assert(crate::format::copies(c, n) =~= Seq::new(n as nat, |i: int| c));
    }
}

/// A width is filled up with blanks, before the text or, with `-`, behind it; with
/// `0` a number is filled up with zeros behind its sign.
pub proof fn law_widths(d: DirectiveView, body: Seq<char>, digits: Seq<char>, sign: char, n: nat)
    requires
        !d.group && !d.plus && !d.space,
        sign == '-',
        digits.len() > 0,
    ensures
        ({
            let wide = DirectiveView { width: (body.len() + n) as int, ..d };
            let blanks = Seq::new(n, |i: int| ' ');
            &&& d.left ==> decorated(wide, body) == Ok::<Seq<char>, Seq<char>>(body + blanks)
            &&& !d.left && !d.zero ==> decorated(wide, body) == Ok::<Seq<char>, Seq<char>>(
                blanks + body,
            )
        }),
        ({
            let wide = DirectiveView {
                width: (digits.len() + 1 + n) as int,
                left: false,
                zero: true,
                conv: 'd',
                ..d
            };
            decorated(wide, seq![sign] + digits) == Ok::<Seq<char>, Seq<char>>(
                seq![sign] + Seq::new(n, |i: int| '0') + digits,
            )
        }),
{
    lemma_copies(' ', n as int);
    lemma_copies('0', n as int);
    let blanks = Seq::new(n, |i: int| ' ');
    let zeros = Seq::new(n, |i: int| '0');
    if n == 0 {
        assert(body + blanks =~= body);
        assert(blanks + body =~= body);
        assert(seq![sign] + zeros + digits =~= seq![sign] + digits);
    } else {
        let t = seq![sign] + digits;
        assert(t.take(1) =~= seq![sign]);
        assert(t.skip(1) =~= digits);
    }
}

/// `+` writes the sign of a number that has none, and a blank flag a blank in its
/// place; a number below nothing keeps its minus.
pub proof fn law_signs(d: DirectiveView, digits: Seq<char>)
    requires
        d.conv == 'd' || d.conv == 'f',
        !d.group,
        d.width == 0,
        digits.len() > 0 && digits[0] != '-',
    ensures
        d.plus ==> decorated(d, digits) == Ok::<Seq<char>, Seq<char>>(seq!['+'] + digits),
        !d.plus && d.space ==> decorated(d, digits) == Ok::<Seq<char>, Seq<char>>(
            seq![' '] + digits,
        ),
        !d.plus && !d.space ==> decorated(d, digits) == Ok::<Seq<char>, Seq<char>>(digits),
        decorated(d, seq!['-'] + digits) == Ok::<Seq<char>, Seq<char>>(seq!['-'] + digits),
{
}

/// A comma stands before every third digit from the right, and nowhere else.
pub proof fn law_grouping(d: Seq<char>, i: int)
    requires
        d.len() > 0,
        !d.contains(','),
        0 <= i < grouped_digits(d).len(),
    ensures
        grouped_digits(d).len() == d.len() + (d.len() - 1) / 3,
        grouped_digits(d)[grouped_digits(d).len() - 1 - i] == ',' <==> i % 4 == 3,
    decreases d.len(),
{
    let g = grouped_digits(d);
    if d.len() <= 3 {
        assert(d.contains(d[d.len() - 1 - i]));
    } else {
        let a = d.take(d.len() - 3);
        let b = d.skip(d.len() - 3);
        assert forall|k: int| 0 <= k < a.len() implies a[k] != ',' by {
            assert(d.contains(d[k]));
        }
        lemma_grouped_not_empty(a);
        if i < 4 {
            law_grouping(a, 0);
            if i < 3 {
                assert(g[g.len() - 1 - i] == b[2 - i]);
                assert(d.contains(d[d.len() - 1 - i]));
            }
        } else {
            law_grouping(a, i - 4);
            assert(g[g.len() - 1 - i] == grouped_digits(a)[grouped_digits(a).len() - 1 - (i - 4)]);
        }
    }
}

proof fn lemma_grouped_not_empty(d: Seq<char>)
    requires
        d.len() > 0,
    ensures
        grouped_digits(d).len() > 0,
{
}

} // verus!
