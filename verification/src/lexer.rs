//! Hand-written Kotlin lexer.
//!
//! Produces [`Spanned`] tokens. Comments (`//`, `/* … */`, nested) are skipped.
//! String literals are scanned into [`StrPart`]s: `$ident` and `${expr}`
//! interpolations are split out here, so that a parser is a pure token
//! consumer.
//!
//! The first half of the file says what the tokens of a source text are, as
//! functions of the text and a position in it; the second half computes them.
use crate::text::{char_from_code, chars_of_str, concat3, push_char, same, string_of};
use crate::token::{Spanned, StrPart, Tok};
use vstd::prelude::*;

verus! {

use crate::token::{SpannedView, StrPartView, TokView};

// ── The lexical grammar ─────────────────────────────────────────────────────

/// The character at `p`, or NUL past the end.
pub open spec fn peek_at(s: Seq<char>, p: int) -> char {
    if 0 <= p < s.len() {
        s[p]
    } else {
        '\0'
    }
}

/// How many line breaks stand before position `p`.
pub open spec fn newlines(s: Seq<char>, p: int) -> int
    decreases p,
{
    if p <= 0 {
        0
    } else if p <= s.len() && s[p - 1] == '\n' {
        newlines(s, p - 1) + 1
    } else {
        newlines(s, p - 1)
    }
}

/// The line that position `p` is on, counted from 1.
pub open spec fn line_at(s: Seq<char>, p: int) -> int {
    newlines(s, p) + 1
}

/// Whether the lines of a text fit the counter that a token carries.
pub open spec fn lines_fit(s: Seq<char>) -> bool {
    line_at(s, s.len() as int) <= u32::MAX
}

pub open spec fn is_blank(c: char) -> bool {
    c == ' ' || c == '\t' || c == '\r' || c == '\n'
}

pub open spec fn is_digit(c: char) -> bool {
    '0' <= c <= '9'
}

pub open spec fn is_digit_or_sep(c: char) -> bool {
    is_digit(c) || c == '_'
}

pub open spec fn is_ident_start(c: char) -> bool {
    'a' <= c <= 'z' || 'A' <= c <= 'Z' || c == '_'
}

pub open spec fn is_ident_char(c: char) -> bool {
    is_ident_start(c) || is_digit(c)
}

/// The value of `c` as a digit of base 36 or below, or 36 when it is none.
pub open spec fn digit_value(c: char) -> int {
    if '0' <= c <= '9' {
        c as int - '0' as int
    } else if 'a' <= c <= 'z' {
        c as int - 'a' as int + 10
    } else if 'A' <= c <= 'Z' {
        c as int - 'A' as int + 10
    } else {
        36
    }
}

/// The first position from `p` on that holds a line break, or the end.
pub open spec fn line_end(s: Seq<char>, p: int) -> int
    decreases s.len() - p,
{
    if p < s.len() && s[p] != '\n' {
        line_end(s, p + 1)
    } else {
        p
    }
}

/// Where the block comment ends whose body goes on at `p` with `depth` openings
/// still to be closed. `None` when the text ends first.
pub open spec fn comment_end(s: Seq<char>, p: int, depth: int) -> Option<int>
    decreases s.len() - p,
{
    if depth <= 0 {
        Some(p)
    } else if p >= s.len() {
        None
    } else if s[p] == '/' && peek_at(s, p + 1) == '*' {
        comment_end(s, p + 2, depth + 1)
    } else if s[p] == '*' && peek_at(s, p + 1) == '/' {
        comment_end(s, p + 2, depth - 1)
    } else {
        comment_end(s, p + 1, depth)
    }
}

/// The first position from `p` on that is neither blank nor inside a comment.
/// `None` when a block comment never ends.
pub open spec fn trivia_end(s: Seq<char>, p: int) -> Option<int>
    decreases s.len() - p,
{
    if p >= s.len() {
        Some(p)
    } else if is_blank(s[p]) {
        trivia_end(s, p + 1)
    } else if s[p] == '/' && peek_at(s, p + 1) == '/' {
        proof {
            lemma_line_end_bounds(s, p + 1);
        }
        trivia_end(s, line_end(s, p + 1))
    } else if s[p] == '/' && peek_at(s, p + 1) == '*' {
        match comment_end(s, p + 2, 1) {
            None => None,
            Some(q) => {
                proof {
                    lemma_comment_end_bounds(s, p + 2, 1);
                }
                trivia_end(s, q)
            },
        }
    } else {
        Some(p)
    }
}

/// The first position from `p` on whose character is no decimal digit and no
/// `_`.
pub open spec fn digits_end(s: Seq<char>, p: int) -> int
    decreases s.len() - p,
{
    if p < s.len() && is_digit_or_sep(s[p]) {
        digits_end(s, p + 1)
    } else {
        p
    }
}

/// The first position from `p` on whose character is no decimal digit.
pub open spec fn plain_digits_end(s: Seq<char>, p: int) -> int
    decreases s.len() - p,
{
    if p < s.len() && is_digit(s[p]) {
        plain_digits_end(s, p + 1)
    } else {
        p
    }
}

/// The first position from `p` on whose character is no digit of `base` and no
/// `_`.
pub open spec fn radix_end(s: Seq<char>, p: int, base: int) -> int
    decreases s.len() - p,
{
    if p < s.len() && (digit_value(s[p]) < base || s[p] == '_') {
        radix_end(s, p + 1, base)
    } else {
        p
    }
}

/// The first position from `p` on whose character is none of an identifier.
pub open spec fn ident_end(s: Seq<char>, p: int) -> int
    decreases s.len() - p,
{
    if p < s.len() && is_ident_char(s[p]) {
        ident_end(s, p + 1)
    } else {
        p
    }
}

/// `s` without its `_` separators.
pub open spec fn without_seps(s: Seq<char>) -> Seq<char>
    decreases s.len(),
{
    if s.len() == 0 {
        Seq::empty()
    } else if s.last() == '_' {
        without_seps(s.drop_last())
    } else {
        without_seps(s.drop_last()).push(s.last())
    }
}

/// The number that the digits `s` write in `base`.
pub open spec fn digits_number(s: Seq<char>, base: int) -> int
    decreases s.len(),
{
    if s.len() == 0 {
        0
    } else {
        digits_number(s.drop_last(), base) * base + digit_value(s.last())
    }
}

/// Whether every character of `s` is a digit of `base`.
pub open spec fn all_digits(s: Seq<char>, base: int) -> bool {
    forall|i: int| 0 <= i < s.len() ==> digit_value(#[trigger] s[i]) < base
}

/// The integer that a literal with the digits `raw` stands for: their number,
/// or 0 when they are no digits of `base` or need more than 64 bits.
pub open spec fn literal_int(raw: Seq<char>, base: int) -> int {
    if raw.len() > 0 && all_digits(raw, base) && digits_number(raw, base) <= i64::MAX {
        digits_number(raw, base)
    } else {
        0
    }
}

/// The base that a `0x` or `0b` prefix at `p` announces, or 10. A prefix counts
/// only when a digit of its base follows.
pub open spec fn prefix_base(s: Seq<char>, p: int) -> int {
    let c = peek_at(s, p + 1);
    if peek_at(s, p) == '0' && (c == 'x' || c == 'X') && digit_value(peek_at(s, p + 2)) < 16 {
        16
    } else if peek_at(s, p) == '0' && (c == 'b' || c == 'B') && digit_value(peek_at(s, p + 2)) < 2 {
        2
    } else {
        10
    }
}

/// Where the fraction of a decimal literal ends whose whole part ends at `p`. A
/// `.` is a decimal point only when a digit follows; otherwise it is a member
/// access or the range operator.
pub open spec fn fraction_end(s: Seq<char>, p: int) -> int {
    if peek_at(s, p) == '.' && is_digit(peek_at(s, p + 1)) {
        digits_end(s, p + 1)
    } else {
        p
    }
}

/// Where the exponent of a decimal literal ends whose fraction ends at `p`.
pub open spec fn exponent_end(s: Seq<char>, p: int) -> int {
    let e = peek_at(s, p);
    if e == 'e' || e == 'E' {
        let sign = peek_at(s, p + 1);
        plain_digits_end(
            s,
            if sign == '+' || sign == '-' {
                p + 2
            } else {
                p + 1
            },
        )
    } else {
        p
    }
}

/// The numeric literal at `p`: its token and where it ends.
pub open spec fn number_at(s: Seq<char>, p: int) -> (TokView, int) {
    let base = prefix_base(s, p);
    if base != 10 {
        let e = radix_end(s, p + 2, base);
        let value = literal_int(without_seps(s.subrange(p + 2, e)), base);
        (
            TokView::Plain(Tok::Int(value as i64)),
            if peek_at(s, e) == 'L' {
                e + 1
            } else {
                e
            },
        )
    } else {
        let whole = digits_end(s, p);
        let e = exponent_end(s, fraction_end(s, whole));
        let raw = without_seps(s.subrange(p, e));
        let suffix = peek_at(s, e);
        if suffix == 'L' {
            (TokView::Plain(Tok::Int(literal_int(raw, 10) as i64)), e + 1)
        } else if suffix == 'f' || suffix == 'F' {
            (TokView::Float(raw), e + 1)
        } else if e != whole {
            (TokView::Float(raw), e)
        } else {
            (TokView::Plain(Tok::Int(literal_int(raw, 10) as i64)), e)
        }
    }
}

/// The token that the identifier-shaped word `w` is.
pub open spec fn word_token(w: Seq<char>) -> TokView {
    if w == "fun"@ {
        TokView::Plain(Tok::Fun)
    } else if w == "val"@ {
        TokView::Plain(Tok::Val)
    } else if w == "var"@ {
        TokView::Plain(Tok::Var)
    } else if w == "if"@ {
        TokView::Plain(Tok::If)
    } else if w == "else"@ {
        TokView::Plain(Tok::Else)
    } else if w == "while"@ {
        TokView::Plain(Tok::While)
    } else if w == "for"@ {
        TokView::Plain(Tok::For)
    } else if w == "in"@ {
        TokView::Plain(Tok::In)
    } else if w == "return"@ {
        TokView::Plain(Tok::Return)
    } else if w == "until"@ {
        TokView::Plain(Tok::Until)
    } else if w == "downTo"@ {
        TokView::Plain(Tok::DownTo)
    } else if w == "step"@ {
        TokView::Plain(Tok::Step)
    } else if w == "when"@ {
        TokView::Plain(Tok::When)
    } else if w == "is"@ {
        TokView::Plain(Tok::Is)
    } else if w == "break"@ {
        TokView::Plain(Tok::Break)
    } else if w == "continue"@ {
        TokView::Plain(Tok::Continue)
    } else if w == "null"@ {
        TokView::Plain(Tok::Null)
    } else if w == "true"@ {
        TokView::Plain(Tok::Bool(true))
    } else if w == "false"@ {
        TokView::Plain(Tok::Bool(false))
    } else {
        TokView::Ident(w)
    }
}

/// The character that `\` followed by `c` stands for in a string literal.
pub open spec fn string_escape(c: char) -> char {
    if c == 'n' {
        '\n'
    } else if c == 't' {
        '\t'
    } else if c == 'r' {
        '\r'
    } else if c == '0' {
        '\0'
    } else {
        c
    }
}

/// The character that `\` followed by `c` stands for in a character literal.
pub open spec fn char_escape(c: char) -> char {
    if c == 'b' {
        '\x08'
    } else {
        string_escape(c)
    }
}

/// The position of the `}` that closes the template expression which goes on at
/// `p` with `depth` braces open. `None` when the text ends first.
pub open spec fn template_end(s: Seq<char>, p: int, depth: int) -> Option<int>
    decreases s.len() - p,
{
    if p >= s.len() {
        None
    } else if s[p] == '{' {
        template_end(s, p + 1, depth + 1)
    } else if s[p] == '}' {
        if depth <= 1 {
            Some(p)
        } else {
            template_end(s, p + 1, depth - 1)
        }
    } else {
        template_end(s, p + 1, depth)
    }
}

/// `parts` followed by the text `cur`, unless `cur` is empty.
pub open spec fn flushed(parts: Seq<StrPartView>, cur: Seq<char>) -> Seq<StrPartView> {
    if cur.len() == 0 {
        parts
    } else {
        parts.push(StrPartView::Text(cur))
    }
}

/// The rest of a string literal from `p` on, after the finished `parts` and the
/// text run `cur`: all its parts and the position behind the closing quote.
pub open spec fn string_rest(
    s: Seq<char>,
    p: int,
    parts: Seq<StrPartView>,
    cur: Seq<char>,
) -> Result<(Seq<StrPartView>, int), Seq<char>>
    decreases s.len() - p,
{
    if p >= s.len() {
        Err("unterminated string literal"@)
    } else if s[p] == '"' {
        if cur.len() == 0 && parts.len() > 0 {
            Ok((parts, p + 1))
        } else {
            Ok((parts.push(StrPartView::Text(cur)), p + 1))
        }
    } else if s[p] == '\\' && p + 1 >= s.len() {
        Err("unterminated string literal"@)
    } else if s[p] == '\\' {
        string_rest(s, p + 2, parts, cur.push(string_escape(peek_at(s, p + 1))))
    } else if s[p] == '$' {
        if peek_at(s, p + 1) == '{' {
            match template_end(s, p + 2, 1) {
                None => Err("unterminated `${` in string"@),
                Some(q) => {
                    proof {
                        lemma_template_end_bounds(s, p + 2, 1);
                    }
                    string_rest(
                        s,
                        q + 1,
                        flushed(parts, cur).push(StrPartView::Expr(s.subrange(p + 2, q))),
                        Seq::empty(),
                    )
                },
            }
        } else if is_ident_start(peek_at(s, p + 1)) {
            let e = ident_end(s, p + 1);
            proof {
                lemma_ident_end_bounds(s, p + 1);
            }
            string_rest(
                s,
                e,
                flushed(parts, cur).push(StrPartView::Expr(s.subrange(p + 1, e))),
                Seq::empty(),
            )
        } else {
            string_rest(s, p + 1, flushed(parts, cur), seq!['$'])
        }
    } else {
        string_rest(s, p + 1, parts, cur.push(s[p]))
    }
}

/// Whether the four characters from `p` on are hexadecimal digits.
pub open spec fn four_hex(s: Seq<char>, p: int) -> bool {
    &&& digit_value(peek_at(s, p)) < 16
    &&& digit_value(peek_at(s, p + 1)) < 16
    &&& digit_value(peek_at(s, p + 2)) < 16
    &&& digit_value(peek_at(s, p + 3)) < 16
}

/// The number those four digits write.
pub open spec fn four_hex_value(s: Seq<char>, p: int) -> int {
    digit_value(peek_at(s, p)) * 4096 + digit_value(peek_at(s, p + 1)) * 256 + digit_value(
        peek_at(s, p + 2),
    ) * 16 + digit_value(peek_at(s, p + 3))
}

/// The code and the end of the character literal's content at `p`, the position
/// behind the opening quote.
pub open spec fn char_content(s: Seq<char>, p: int) -> Result<(int, int), Seq<char>> {
    if s[p] == '\\' {
        let e = peek_at(s, p + 1);
        if e == 'u' {
            if !four_hex(s, p + 2) {
                Err("invalid `\\u` escape in char literal"@)
            } else if 0xd800 <= four_hex_value(s, p + 2) <= 0xdfff {
                Err("invalid unicode scalar in char literal"@)
            } else {
                Ok((four_hex_value(s, p + 2), p + 6))
            }
        } else if e as int >= 0x80 {
            Err("unterminated char literal (expected closing `'`)"@)
        } else {
            Ok((char_escape(e) as int, p + 2))
        }
    } else if s[p] as int > 0xffff {
        Err("invalid char literal"@)
    } else {
        Ok((s[p] as int, p + 1))
    }
}

/// The character literal whose opening quote stands at `p`.
pub open spec fn char_literal_at(s: Seq<char>, p: int) -> Result<(TokView, int), Seq<char>> {
    if p + 1 >= s.len() {
        Err("unterminated char literal"@)
    } else {
        match char_content(s, p + 1) {
            Err(e) => Err(e),
            Ok((code, q)) => if peek_at(s, q) == '\'' {
                Ok((TokView::Plain(Tok::Char(code as i64)), q + 1))
            } else {
                Err("unterminated char literal (expected closing `'`)"@)
            },
        }
    }
}

/// The two-character operator `c d`, if there is one.
pub open spec fn double_operator(c: char, d: char) -> Option<Tok> {
    if c == '+' && d == '=' {
        Some(Tok::PlusEq)
    } else if c == '-' && d == '=' {
        Some(Tok::MinusEq)
    } else if c == '*' && d == '=' {
        Some(Tok::StarEq)
    } else if c == '/' && d == '=' {
        Some(Tok::SlashEq)
    } else if c == '%' && d == '=' {
        Some(Tok::PercentEq)
    } else if c == '=' && d == '=' {
        Some(Tok::EqEq)
    } else if c == '!' && d == '=' {
        Some(Tok::NotEq)
    } else if c == '<' && d == '=' {
        Some(Tok::Le)
    } else if c == '>' && d == '=' {
        Some(Tok::Ge)
    } else if c == '&' && d == '&' {
        Some(Tok::AndAnd)
    } else if c == '|' && d == '|' {
        Some(Tok::OrOr)
    } else if c == '-' && d == '>' {
        Some(Tok::Arrow)
    } else if c == '.' && d == '.' {
        Some(Tok::DotDot)
    } else {
        None
    }
}

/// The one-character operator `c`, if there is one.
pub open spec fn single_operator(c: char) -> Option<Tok> {
    if c == '+' {
        Some(Tok::Plus)
    } else if c == '-' {
        Some(Tok::Minus)
    } else if c == '*' {
        Some(Tok::Star)
    } else if c == '/' {
        Some(Tok::Slash)
    } else if c == '%' {
        Some(Tok::Percent)
    } else if c == '=' {
        Some(Tok::Assign)
    } else if c == '<' {
        Some(Tok::Lt)
    } else if c == '>' {
        Some(Tok::Gt)
    } else if c == '!' {
        Some(Tok::Not)
    } else if c == '(' {
        Some(Tok::LParen)
    } else if c == ')' {
        Some(Tok::RParen)
    } else if c == '{' {
        Some(Tok::LBrace)
    } else if c == '}' {
        Some(Tok::RBrace)
    } else if c == '[' {
        Some(Tok::LBracket)
    } else if c == ']' {
        Some(Tok::RBracket)
    } else if c == ',' {
        Some(Tok::Comma)
    } else if c == ':' {
        Some(Tok::Colon)
    } else if c == ';' {
        Some(Tok::Semi)
    } else if c == '.' {
        Some(Tok::Dot)
    } else if c == '@' {
        Some(Tok::At)
    } else if c == '?' {
        Some(Tok::Question)
    } else {
        None
    }
}

/// The first byte of the UTF-8 form of the character with code `code`.
pub open spec fn lead_byte(code: int) -> int {
    if code < 0x80 {
        code
    } else if code < 0x800 {
        0xc0 + code / 0x40
    } else if code < 0x10000 {
        0xe0 + code / 0x1000
    } else {
        0xf0 + code / 0x40000
    }
}

/// The message for a character that starts no token. It names the character by
/// its first UTF-8 byte.
pub open spec fn unexpected_character(c: char) -> Seq<char> {
    "unexpected character '"@ + seq![lead_byte(c as int) as char] + "'"@
}

/// The operator at `p`.
pub open spec fn operator_at(s: Seq<char>, p: int) -> Result<(TokView, int), Seq<char>> {
    match double_operator(s[p], peek_at(s, p + 1)) {
        Some(t) => Ok((TokView::Plain(t), p + 2)),
        None => match single_operator(s[p]) {
            Some(t) => Ok((TokView::Plain(t), p + 1)),
            None => Err(unexpected_character(s[p])),
        },
    }
}

/// The token that starts at `p` and the position behind it, or why there is
/// none.
pub open spec fn token_at(s: Seq<char>, p: int) -> Result<(TokView, int), Seq<char>> {
    let c = s[p];
    if is_digit(c) {
        Ok(number_at(s, p))
    } else if c == '"' {
        match string_rest(s, p + 1, Seq::empty(), Seq::empty()) {
            Ok((parts, q)) => Ok((TokView::Str(parts), q)),
            Err(e) => Err(e),
        }
    } else if c == '\'' {
        char_literal_at(s, p)
    } else if is_ident_start(c) {
        Ok((word_token(s.subrange(p, ident_end(s, p))), ident_end(s, p)))
    } else {
        operator_at(s, p)
    }
}

/// `first` in front of the tokens of `rest`, or the error of `rest`.
pub open spec fn in_front(
    first: Seq<SpannedView>,
    rest: Result<Seq<SpannedView>, Seq<char>>,
) -> Result<Seq<SpannedView>, Seq<char>> {
    match rest {
        Ok(toks) => Ok(first + toks),
        Err(e) => Err(e),
    }
}

/// The tokens of `s` from position `p` on, ending in [`Tok::Eof`], or the first
/// error.
pub open spec fn tokens_from(s: Seq<char>, p: int) -> Result<Seq<SpannedView>, Seq<char>>
    decreases s.len() - p,
{
    match trivia_end(s, p) {
        None => Err("unterminated block comment"@),
        Some(q) => if q >= s.len() {
            Ok(seq![SpannedView { tok: TokView::Plain(Tok::Eof), line: line_at(s, q) }])
        } else {
            match token_at(s, q) {
                Err(e) => Err(e),
                Ok((t, r)) => {
                    proof {
                        lemma_trivia_end_bounds(s, p);
                        lemma_token_progress(s, q);
                    }
                    in_front(
                        seq![SpannedView { tok: t, line: line_at(s, q) }],
                        tokens_from(s, r),
                    )
                },
            }
        },
    }
}

/// What [`Lexer::tokenize`] answers, as a mathematical value.
pub open spec fn outcome_view(r: Result<Vec<Spanned>, String>) -> Result<
    Seq<SpannedView>,
    Seq<char>,
> {
    match r {
        Ok(v) => Ok(v@.map_values(|t: Spanned| t@)),
        Err(e) => Err(e@),
    }
}

// ── Positions only move forward ─────────────────────────────────────────────

pub proof fn lemma_line_end_bounds(s: Seq<char>, p: int)
    ensures
        p <= line_end(s, p),
        p <= s.len() ==> line_end(s, p) <= s.len(),
    decreases s.len() - p,
{
    if p < s.len() && s[p] != '\n' {
        lemma_line_end_bounds(s, p + 1);
    }
}

pub proof fn lemma_comment_end_bounds(s: Seq<char>, p: int, depth: int)
    ensures
        comment_end(s, p, depth) matches Some(q) ==> p <= q && (p <= s.len() ==> q <= s.len()),
    decreases s.len() - p,
{
    if depth > 0 && p < s.len() {
        if s[p] == '/' && peek_at(s, p + 1) == '*' {
            lemma_comment_end_bounds(s, p + 2, depth + 1);
        } else if s[p] == '*' && peek_at(s, p + 1) == '/' {
            lemma_comment_end_bounds(s, p + 2, depth - 1);
        } else {
            lemma_comment_end_bounds(s, p + 1, depth);
        }
    }
}

pub proof fn lemma_trivia_end_bounds(s: Seq<char>, p: int)
    ensures
        trivia_end(s, p) matches Some(q) ==> p <= q && (p <= s.len() ==> q <= s.len()),
    decreases s.len() - p,
{
    if p >= s.len() {
    } else if is_blank(s[p]) {
        lemma_trivia_end_bounds(s, p + 1);
    } else if s[p] == '/' && peek_at(s, p + 1) == '/' {
        lemma_line_end_bounds(s, p + 1);
        lemma_trivia_end_bounds(s, line_end(s, p + 1));
    } else if s[p] == '/' && peek_at(s, p + 1) == '*' {
        lemma_comment_end_bounds(s, p + 2, 1);
        match comment_end(s, p + 2, 1) {
            None => {},
            Some(q) => {
                lemma_trivia_end_bounds(s, q);
            },
        }
    }
}

pub proof fn lemma_digits_end_bounds(s: Seq<char>, p: int)
    ensures
        p <= digits_end(s, p),
        p <= s.len() ==> digits_end(s, p) <= s.len(),
    decreases s.len() - p,
{
    if p < s.len() && is_digit_or_sep(s[p]) {
        lemma_digits_end_bounds(s, p + 1);
    }
}

pub proof fn lemma_plain_digits_end_bounds(s: Seq<char>, p: int)
    ensures
        p <= plain_digits_end(s, p),
        p <= s.len() ==> plain_digits_end(s, p) <= s.len(),
    decreases s.len() - p,
{
    if p < s.len() && is_digit(s[p]) {
        lemma_plain_digits_end_bounds(s, p + 1);
    }
}

pub proof fn lemma_radix_end_bounds(s: Seq<char>, p: int, base: int)
    ensures
        p <= radix_end(s, p, base),
        p <= s.len() ==> radix_end(s, p, base) <= s.len(),
    decreases s.len() - p,
{
    if p < s.len() && (digit_value(s[p]) < base || s[p] == '_') {
        lemma_radix_end_bounds(s, p + 1, base);
    }
}

pub proof fn lemma_ident_end_bounds(s: Seq<char>, p: int)
    ensures
        p <= ident_end(s, p),
        p <= s.len() ==> ident_end(s, p) <= s.len(),
    decreases s.len() - p,
{
    if p < s.len() && is_ident_char(s[p]) {
        lemma_ident_end_bounds(s, p + 1);
    }
}

pub proof fn lemma_template_end_bounds(s: Seq<char>, p: int, depth: int)
    ensures
        template_end(s, p, depth) matches Some(q) ==> p <= q < s.len(),
    decreases s.len() - p,
{
    if p < s.len() {
        if s[p] == '{' {
            lemma_template_end_bounds(s, p + 1, depth + 1);
        } else if s[p] == '}' {
            if depth > 1 {
                lemma_template_end_bounds(s, p + 1, depth - 1);
            }
        } else {
            lemma_template_end_bounds(s, p + 1, depth);
        }
    }
}

pub proof fn lemma_string_rest_bounds(
    s: Seq<char>,
    p: int,
    parts: Seq<StrPartView>,
    cur: Seq<char>,
)
    ensures
        string_rest(s, p, parts, cur) matches Ok((v, q)) ==> p < q <= s.len() && v.len() > 0,
    decreases s.len() - p,
{
    if p >= s.len() || s[p] == '"' || (s[p] == '\\' && p + 1 >= s.len()) {
    } else if s[p] == '\\' {
        lemma_string_rest_bounds(s, p + 2, parts, cur.push(string_escape(peek_at(s, p + 1))));
    } else if s[p] == '$' {
        if peek_at(s, p + 1) == '{' {
            lemma_template_end_bounds(s, p + 2, 1);
            match template_end(s, p + 2, 1) {
                None => {},
                Some(q) => {
                    lemma_string_rest_bounds(
                        s,
                        q + 1,
                        flushed(parts, cur).push(StrPartView::Expr(s.subrange(p + 2, q))),
                        Seq::empty(),
                    );
                },
            }
        } else if is_ident_start(peek_at(s, p + 1)) {
            let e = ident_end(s, p + 1);
            lemma_ident_end_bounds(s, p + 1);
            lemma_string_rest_bounds(
                s,
                e,
                flushed(parts, cur).push(StrPartView::Expr(s.subrange(p + 1, e))),
                Seq::empty(),
            );
        } else {
            lemma_string_rest_bounds(s, p + 1, flushed(parts, cur), seq!['$']);
        }
    } else {
        lemma_string_rest_bounds(s, p + 1, parts, cur.push(s[p]));
    }
}

pub proof fn lemma_number_bounds(s: Seq<char>, p: int)
    requires
        p < s.len(),
        is_digit(s[p]),
    ensures
        p < number_at(s, p).1 <= s.len(),
{
    let base = prefix_base(s, p);
    if base != 10 {
        lemma_radix_end_bounds(s, p + 2, base);
    } else {
        lemma_digits_end_bounds(s, p + 1);
        let whole = digits_end(s, p);
        lemma_digits_end_bounds(s, whole + 1);
        let f = fraction_end(s, whole);
        lemma_plain_digits_end_bounds(s, f + 1);
        lemma_plain_digits_end_bounds(s, f + 2);
    }
}

/// Every token covers at least one character and ends inside the text.
pub proof fn lemma_token_progress(s: Seq<char>, p: int)
    requires
        p < s.len(),
    ensures
        token_at(s, p) matches Ok((t, q)) ==> p < q <= s.len(),
{
    if is_digit(s[p]) {
        lemma_number_bounds(s, p);
    } else if s[p] == '"' {
        lemma_string_rest_bounds(s, p + 1, Seq::empty(), Seq::empty());
    } else if is_ident_start(s[p]) {
        lemma_ident_end_bounds(s, p + 1);
    }
}

// ── Numbers ─────────────────────────────────────────────────────────────────

proof fn lemma_digits_number_step(s: Seq<char>, i: int, base: int)
    requires
        0 <= i < s.len(),
    ensures
        digits_number(s.take(i + 1), base) == digits_number(s.take(i), base) * base + digit_value(
            s[i],
        ),
{
    assert(s.take(i + 1).drop_last() =~= s.take(i));
}

proof fn lemma_digits_number_grows(s: Seq<char>, i: int, base: int)
    requires
        0 <= i <= s.len(),
        base >= 1,
        all_digits(s, base),
    ensures
        0 <= digits_number(s.take(i), base) <= digits_number(s, base),
    decreases s.len() - i, i,
{
    if i == s.len() {
        assert(s.take(i) =~= s);
        lemma_digits_number_nonneg(s, base);
    } else {
        lemma_digits_number_grows(s, i + 1, base);
        lemma_digits_number_step(s, i, base);
        lemma_digits_number_nonneg(s.take(i), base);
        let v = digits_number(s.take(i), base);
        assert(v * base >= v) by (nonlinear_arith)
            requires
                v >= 0,
                base >= 1,
        ;
        assert(digit_value(s[i]) >= 0);
    }
}

proof fn lemma_digits_number_nonneg(s: Seq<char>, base: int)
    requires
        base >= 0,
    ensures
        digits_number(s, base) >= 0,
    decreases s.len(),
{
    if s.len() > 0 {
        lemma_digits_number_nonneg(s.drop_last(), base);
        let v = digits_number(s.drop_last(), base);
        assert(v * base >= 0) by (nonlinear_arith)
            requires
                v >= 0,
                base >= 0,
        ;
    }
}

/// The value of `c` as a digit of base 36 or below, or 36 when it is none.
pub fn digit_of(c: char) -> (d: u32)
    ensures
        d == digit_value(c),
{
    if '0' <= c && c <= '9' {
        c as u32 - '0' as u32
    } else if 'a' <= c && c <= 'z' {
        c as u32 - 'a' as u32 + 10
    } else if 'A' <= c && c <= 'Z' {
        c as u32 - 'A' as u32 + 10
    } else {
        36
    }
}

/// The integer that a literal with the digits `raw` stands for.
fn parse_literal(raw: &Vec<char>, base: u32) -> (n: i64)
    requires
        2 <= base <= 36,
    ensures
        n == literal_int(raw@, base as int),
{
    if raw.len() == 0 {
        return 0;
    }
    let mut n: i64 = 0;
    let mut i: usize = 0;
    while i < raw.len()
        invariant
            i <= raw@.len(),
            raw@.len() > 0,
            2 <= base <= 36,
            forall|j: int| 0 <= j < i ==> digit_value(#[trigger] raw@[j]) < base,
            n == digits_number(raw@.take(i as int), base as int),
            n >= 0,
        decreases raw.len() - i,
    {
        let d: u32 = digit_of(raw[i]);
        if d >= base {
            assert(!all_digits(raw@, base as int));
            return 0;
        }
        assert(0 <= n * base <= i64::MAX * 36) by (nonlinear_arith)
            requires
                0 <= n <= i64::MAX,
                2 <= base <= 36,
        ;
        let wide: i128 = (n as i128) * (base as i128) + (d as i128);
        proof {
            lemma_digits_number_step(raw@, i as int, base as int);
        }
        if wide > i64::MAX as i128 {
            proof {
                if all_digits(raw@, base as int) {
                    lemma_digits_number_grows(raw@, i + 1, base as int);
                }
            }
            return 0;
        }
        n = wide as i64;
        i = i + 1;
    }
    assert(raw@.take(i as int) =~= raw@);
    n
}

// ── The lexer ───────────────────────────────────────────────────────────────

/// A lexer over one source text.
pub struct Lexer<'a> {
    text: &'a str,
    src: Vec<char>,
    pos: usize,
    line: u32,
}

impl<'a> Lexer<'a> {
    /// The text being lexed.
    pub closed spec fn source(&self) -> Seq<char> {
        self.text@
    }

    /// Whether nothing has been consumed yet.
    pub closed spec fn at_start(&self) -> bool {
        self.pos == 0 && self.line == 1 && self.src@ == self.text@
    }

    spec fn wf(&self) -> bool {
        &&& self.src@ == self.text@
        &&& lines_fit(self.src@)
        &&& self.pos <= self.src@.len()
        &&& self.line == line_at(self.src@, self.pos as int)
    }

    /// Whether this is `before` moved to position `p`.
    spec fn moved(&self, before: Self, p: int) -> bool {
        &&& self.wf()
        &&& self.src == before.src
        &&& self.text == before.text
        &&& self.pos == p
    }

    /// A lexer at the start of `src`.
    pub fn new(src: &'a str) -> (r: Self)
        ensures
            r.source() == src@,
            r.at_start(),
    {
        Lexer { text: src, src: chars_of_str(src), pos: 0, line: 1 }
    }

    /// Tokenize the whole source. Answers `Err(msg)` on an unterminated literal
    /// or comment and on an unexpected character.
    pub fn tokenize(self) -> (r: Result<Vec<Spanned>, String>)
        requires
            self.at_start(),
            lines_fit(self.source()),
        ensures
            outcome_view(r) == tokens_from(self.source(), 0),
    {
        let mut lx: Self = self;
        let mut out: Vec<Spanned> = Vec::new();
        let ghost s = self.src@;
        let ghost view = |t: Spanned| t@;
        assert(out@.map_values(view) =~= Seq::empty());
        assert(tokens_from(s, 0) == in_front(Seq::empty(), tokens_from(s, 0))) by {
            match tokens_from(s, 0) {
                Ok(v) => {
                    assert(Seq::empty() + v =~= v);
                },
                Err(_) => {},
            }
        }
        loop
            invariant
                lx.wf(),
                s == lx.src@,
                s == self.source(),
                view == (|t: Spanned| t@),
                tokens_from(s, 0) == in_front(
                    out@.map_values(view),
                    tokens_from(s, lx.pos as int),
                ),
            decreases s.len() - lx.pos,
        {
            let ghost p = lx.pos as int;
            proof {
                lemma_trivia_end_bounds(s, p);
            }
            match lx.skip_trivia() {
                Err(e) => {
                    return Err(e);
                },
                Ok(()) => {},
            }
            let line: u32 = lx.line;
            let ghost before = out@.map_values(view);
            if lx.pos >= lx.src.len() {
                let eof = Spanned { tok: Tok::Eof, line };
                let ghost e = eof@;
                out.push(eof);
                assert(out@.map_values(view) =~= before + seq![e]);
                return Ok(out);
            }
            let ghost q = lx.pos as int;
            proof {
                lemma_token_progress(s, q);
            }
            match lx.next_token() {
                Err(e) => {
                    return Err(e);
                },
                Ok(tok) => {
                    let item = Spanned { tok, line };
                    let ghost e = item@;
                    out.push(item);
                    proof {
                        assert(out@.map_values(view) =~= before + seq![e]);
                        match tokens_from(s, lx.pos as int) {
                            Ok(rest) => {
                                assert(before + (seq![e] + rest) =~= (before + seq![e]) + rest);
                            },
                            Err(_) => {},
                        }
                    }
                },
            }
        }
    }

    /// The next character, or NUL at the end.
    fn peek(&self) -> (c: char)
        requires
            self.wf(),
        ensures
            c == peek_at(self.src@, self.pos as int),
    {
        if self.pos < self.src.len() {
            self.src[self.pos]
        } else {
            '\0'
        }
    }

    /// The character `k` places behind the next one, or NUL past the end.
    fn peek_ahead(&self, k: usize) -> (c: char)
        requires
            self.wf(),
        ensures
            c == peek_at(self.src@, self.pos + k),
    {
        if k < self.src.len() - self.pos {
            self.src[self.pos + k]
        } else {
            '\0'
        }
    }

    /// Move past the next character, which must exist.
    fn bump(&mut self)
        requires
            old(self).wf(),
            old(self).pos < old(self).src@.len(),
        ensures
            final(self).moved(*old(self), old(self).pos + 1),
    {
        proof {
            lemma_newlines_grow(self.src@, self.pos + 1, self.src@.len() as int);
            assert(self.src.len() == self.src@.len());
        }
        if self.src[self.pos] == '\n' {
            self.line = self.line + 1;
        }
        self.pos = self.pos + 1;
    }

    /// Skip blanks and comments.
    fn skip_trivia(&mut self) -> (r: Result<(), String>)
        requires
            old(self).wf(),
        ensures
            match r {
                Ok(_) => trivia_end(old(self).src@, old(self).pos as int) is Some
                    && final(self).moved(
                    *old(self),
                    trivia_end(old(self).src@, old(self).pos as int)->0,
                ),
                Err(e) => trivia_end(old(self).src@, old(self).pos as int) is None && e@
                    == "unterminated block comment"@,
            },
    {
        let ghost s = self.src@;
        let ghost goal = trivia_end(s, self.pos as int);
        loop
            invariant
                self.moved(*old(self), self.pos as int),
                s == self.src@,
                goal == trivia_end(old(self).src@, old(self).pos as int),
                trivia_end(s, self.pos as int) == goal,
            decreases s.len() - self.pos,
        {
            if self.pos >= self.src.len() {
                return Ok(());
            }
            let c: char = self.peek();
            if c == ' ' || c == '\t' || c == '\r' || c == '\n' {
                self.bump();
            } else if c == '/' && self.peek_ahead(1) == '/' {
                self.bump();
                self.skip_line();
            } else if c == '/' && self.peek_ahead(1) == '*' {
                self.bump();
                self.bump();
                if !self.skip_comment() {
                    return Err("unterminated block comment".to_owned());
                }
            } else {
                return Ok(());
            }
        }
    }

    /// Move to the end of the line.
    fn skip_line(&mut self)
        requires
            old(self).wf(),
        ensures
            final(self).moved(*old(self), line_end(old(self).src@, old(self).pos as int)),
            final(self).pos >= old(self).pos,
    {
        while self.pos < self.src.len() && self.peek() != '\n'
            invariant
                self.moved(*old(self), self.pos as int),
                self.pos >= old(self).pos,
                line_end(self.src@, self.pos as int) == line_end(
                    old(self).src@,
                    old(self).pos as int,
                ),
            decreases self.src@.len() - self.pos,
        {
            self.bump();
        }
    }

    /// Move behind the end of the block comment whose opening was just passed;
    /// `false` when it has none.
    fn skip_comment(&mut self) -> (ok: bool)
        requires
            old(self).wf(),
        ensures
            ok == (comment_end(old(self).src@, old(self).pos as int, 1) is Some),
            ok ==> final(self).moved(
                *old(self),
                comment_end(old(self).src@, old(self).pos as int, 1)->0,
            ),
            final(self).pos >= old(self).pos,
            ok || final(self).moved(*old(self), final(self).pos as int),
    {
        let mut depth: usize = 1;
        while depth > 0
            invariant
                self.moved(*old(self), self.pos as int),
                self.pos >= old(self).pos,
                depth <= self.pos - old(self).pos + 1,
                comment_end(self.src@, self.pos as int, depth as int) == comment_end(
                    old(self).src@,
                    old(self).pos as int,
                    1,
                ),
            decreases self.src@.len() - self.pos, depth,
        {
            if self.pos >= self.src.len() {
                return false;
            }
            let c: char = self.peek();
            let d: char = self.peek_ahead(1);
            if c == '/' && d == '*' {
                self.bump();
                self.bump();
                depth = depth + 1;
            } else if c == '*' && d == '/' {
                self.bump();
                self.bump();
                depth = depth - 1;
            } else {
                self.bump();
            }
        }
        true
    }

    /// The token at the current position, which must be inside the text.
    fn next_token(&mut self) -> (r: Result<Tok, String>)
        requires
            old(self).wf(),
            old(self).pos < old(self).src@.len(),
        ensures
            match r {
                Ok(t) => token_at(old(self).src@, old(self).pos as int) == Ok::<_, Seq<char>>(
                    (t@, final(self).pos as int),
                ) && final(self).moved(*old(self), final(self).pos as int),
                Err(e) => token_at(old(self).src@, old(self).pos as int)
                    == Err::<(TokView, int), _>(e@),
            },
    {
        let c: char = self.peek();
        if '0' <= c && c <= '9' {
            Ok(self.number())
        } else if c == '"' {
            self.string()
        } else if c == '\'' {
            self.char_literal()
        } else if ident_start(c) {
            Ok(self.ident_or_keyword())
        } else {
            self.operator()
        }
    }

    /// A `Char` literal `'A'`: a single UTF-16 code unit or escape. The token
    /// carries the unit.
    fn char_literal(&mut self) -> (r: Result<Tok, String>)
        requires
            old(self).wf(),
            old(self).pos < old(self).src@.len(),
        ensures
            match r {
                Ok(t) => char_literal_at(old(self).src@, old(self).pos as int) == Ok::<_, Seq<char>>(
                    (t@, final(self).pos as int),
                ) && final(self).moved(*old(self), final(self).pos as int),
                Err(e) => char_literal_at(old(self).src@, old(self).pos as int)
                    == Err::<(TokView, int), _>(e@),
            },
    {
        self.bump();
        if self.pos >= self.src.len() {
            return Err("unterminated char literal".to_owned());
        }
        let code: u32;
        if self.peek() == '\\' {
            let e: char = self.peek_ahead(1);
            if e == 'u' {
                let d1: u32 = digit_of(self.peek_ahead(2));
                let d2: u32 = digit_of(self.peek_ahead(3));
                let d3: u32 = digit_of(self.peek_ahead(4));
                let d4: u32 = digit_of(self.peek_ahead(5));
                if d1 >= 16 || d2 >= 16 || d3 >= 16 || d4 >= 16 {
                    return Err("invalid `\\u` escape in char literal".to_owned());
                }
                let value: u32 = d1 * 4096 + d2 * 256 + d3 * 16 + d4;
                match char_from_code(value) {
                    None => {
                        return Err("invalid unicode scalar in char literal".to_owned());
                    },
                    Some(c) => {
                        code = c as u32;
                    },
                }
                self.bump();
                self.bump();
                self.bump();
                self.bump();
                self.bump();
                self.bump();
            } else if e as u32 >= 0x80 {
                return Err("unterminated char literal (expected closing `'`)".to_owned());
            } else {
                code = if e == 'b' {
                    8
                } else {
                    escaped(e) as u32
                };
                self.bump();
                if self.pos >= self.src.len() {
                    return Err("unterminated char literal (expected closing `'`)".to_owned());
                }
                self.bump();
            }
        } else {
            code = self.peek() as u32;
            if code > 0xffff {
                return Err("invalid char literal".to_owned());
            }
            self.bump();
        }
        if self.peek() != '\'' {
            return Err("unterminated char literal (expected closing `'`)".to_owned());
        }
        self.bump();
        Ok(Tok::Char(code as i64))
    }

    /// A numeric literal.
    fn number(&mut self) -> (t: Tok)
        requires
            old(self).wf(),
            old(self).pos < old(self).src@.len(),
            is_digit(old(self).src@[old(self).pos as int]),
        ensures
            number_at(old(self).src@, old(self).pos as int) == (t@, final(self).pos as int),
            final(self).moved(*old(self), final(self).pos as int),
    {
        let start: usize = self.pos;
        let base: u32 = self.base_of_prefix();
        proof {
            lemma_number_bounds(self.src@, start as int);
        }
        if base != 10 {
            self.bump();
            self.bump();
            let from: usize = self.pos;
            self.skip_radix(base);
            let raw: Vec<char> = strip_seps(&self.src, from, self.pos);
            let value: i64 = parse_literal(&raw, base);
            if self.peek() == 'L' {
                self.bump();
            }
            return Tok::Int(value);
        }
        self.skip_digits();
        let whole: usize = self.pos;
        // A `.` is a decimal point only when followed by a digit; otherwise it
        // is the range operator `..` (e.g. `1..10`).
        if self.peek() == '.' && ascii_digit(self.peek_ahead(1)) {
            self.bump();
            self.skip_digits();
        }
        let e: char = self.peek();
        if e == 'e' || e == 'E' {
            self.bump();
            let sign: char = self.peek();
            if sign == '+' || sign == '-' {
                self.bump();
            }
            self.skip_plain_digits();
        }
        let is_float: bool = self.pos != whole;
        let raw: Vec<char> = strip_seps(&self.src, start, self.pos);
        let suffix: char = self.peek();
        if suffix == 'L' {
            self.bump();
            return Tok::Int(parse_literal(&raw, 10));
        }
        if suffix == 'f' || suffix == 'F' {
            self.bump();
            let text: String = string_of(&raw, 0, raw.len());
            assert(raw@.subrange(0, raw@.len() as int) =~= raw@);
            return Tok::Float(text);
        }
        if is_float {
            let text: String = string_of(&raw, 0, raw.len());
            assert(raw@.subrange(0, raw@.len() as int) =~= raw@);
            Tok::Float(text)
        } else {
            Tok::Int(parse_literal(&raw, 10))
        }
    }

    /// The base announced by the characters at the current position.
    fn base_of_prefix(&self) -> (base: u32)
        requires
            self.wf(),
        ensures
            base == prefix_base(self.src@, self.pos as int),
            base == 10 || base == 2 || base == 16,
            base != 10 ==> self.pos + 2 < self.src@.len(),
    {
        let c: char = self.peek_ahead(1);
        let d: u32 = digit_of(self.peek_ahead(2));
        if self.peek() == '0' && (c == 'x' || c == 'X') && d < 16 {
            16
        } else if self.peek() == '0' && (c == 'b' || c == 'B') && d < 2 {
            2
        } else {
            10
        }
    }

    fn skip_digits(&mut self)
        requires
            old(self).wf(),
        ensures
            final(self).moved(*old(self), digits_end(old(self).src@, old(self).pos as int)),
    {
        while ascii_digit(self.peek()) || self.peek() == '_'
            invariant
                self.moved(*old(self), self.pos as int),
                digits_end(self.src@, self.pos as int) == digits_end(
                    old(self).src@,
                    old(self).pos as int,
                ),
            decreases self.src@.len() - self.pos,
        {
            self.bump();
        }
    }

    fn skip_plain_digits(&mut self)
        requires
            old(self).wf(),
        ensures
            final(self).moved(*old(self), plain_digits_end(old(self).src@, old(self).pos as int)),
    {
        while ascii_digit(self.peek())
            invariant
                self.moved(*old(self), self.pos as int),
                plain_digits_end(self.src@, self.pos as int) == plain_digits_end(
                    old(self).src@,
                    old(self).pos as int,
                ),
            decreases self.src@.len() - self.pos,
        {
            self.bump();
        }
    }

    fn skip_radix(&mut self, base: u32)
        requires
            old(self).wf(),
            2 <= base <= 36,
        ensures
            final(self).moved(
                *old(self),
                radix_end(old(self).src@, old(self).pos as int, base as int),
            ),
            final(self).pos >= old(self).pos,
    {
        while self.pos < self.src.len() && (digit_of(self.peek()) < base || self.peek() == '_')
            invariant
                self.moved(*old(self), self.pos as int),
                self.pos >= old(self).pos,
                radix_end(self.src@, self.pos as int, base as int) == radix_end(
                    old(self).src@,
                    old(self).pos as int,
                    base as int,
                ),
            decreases self.src@.len() - self.pos,
        {
            self.bump();
        }
    }

    fn skip_ident(&mut self)
        requires
            old(self).wf(),
        ensures
            final(self).moved(*old(self), ident_end(old(self).src@, old(self).pos as int)),
            final(self).pos >= old(self).pos,
    {
        while ident_char(self.peek())
            invariant
                self.moved(*old(self), self.pos as int),
                self.pos >= old(self).pos,
                ident_end(self.src@, self.pos as int) == ident_end(
                    old(self).src@,
                    old(self).pos as int,
                ),
            decreases self.src@.len() - self.pos,
        {
            self.bump();
        }
    }

    /// An identifier, or the keyword it spells.
    fn ident_or_keyword(&mut self) -> (t: Tok)
        requires
            old(self).wf(),
        ensures
            t@ == word_token(
                old(self).src@.subrange(
                    old(self).pos as int,
                    ident_end(old(self).src@, old(self).pos as int),
                ),
            ),
            final(self).moved(*old(self), ident_end(old(self).src@, old(self).pos as int)),
    {
        let start: usize = self.pos;
        self.skip_ident();
        let word: String = string_of(&self.src, start, self.pos);
        let w: &str = word.as_str();
        if same(w, "fun") {
            Tok::Fun
        } else if same(w, "val") {
            Tok::Val
        } else if same(w, "var") {
            Tok::Var
        } else if same(w, "if") {
            Tok::If
        } else if same(w, "else") {
            Tok::Else
        } else if same(w, "while") {
            Tok::While
        } else if same(w, "for") {
            Tok::For
        } else if same(w, "in") {
            Tok::In
        } else if same(w, "return") {
            Tok::Return
        } else if same(w, "until") {
            Tok::Until
        } else if same(w, "downTo") {
            Tok::DownTo
        } else if same(w, "step") {
            Tok::Step
        } else if same(w, "when") {
            Tok::When
        } else if same(w, "is") {
            Tok::Is
        } else if same(w, "break") {
            Tok::Break
        } else if same(w, "continue") {
            Tok::Continue
        } else if same(w, "null") {
            Tok::Null
        } else if same(w, "true") {
            Tok::Bool(true)
        } else if same(w, "false") {
            Tok::Bool(false)
        } else {
            Tok::Ident(word)
        }
    }

    /// A string literal, split into its text and its interpolations.
    fn string(&mut self) -> (r: Result<Tok, String>)
        requires
            old(self).wf(),
            old(self).pos < old(self).src@.len(),
        ensures
            match r {
                Ok(t) => string_rest(
                    old(self).src@,
                    old(self).pos + 1,
                    Seq::empty(),
                    Seq::empty(),
                ) matches Ok((parts, q)) && t@ == TokView::Str(parts) && q == final(self).pos
                    && final(self).moved(*old(self), final(self).pos as int),
                Err(e) => string_rest(old(self).src@, old(self).pos + 1, Seq::empty(), Seq::empty())
                    == Err::<(Seq<StrPartView>, int), _>(e@),
            },
    {
        let ghost s = self.src@;
        let ghost start = self.pos + 1;
        let ghost pv = |q: StrPart| q@;
        let ghost goal = string_rest(s, start, Seq::empty(), Seq::empty());
        self.bump();
        let mut parts: Vec<StrPart> = Vec::new();
        let mut cur: String = String::new();
        assert(parts@.map_values(pv) =~= Seq::empty());
        loop
            invariant
                self.moved(*old(self), self.pos as int),
                s == self.src@,
                pv == (|q: StrPart| q@),
                goal == string_rest(s, old(self).pos + 1, Seq::empty(), Seq::empty()),
                string_rest(s, self.pos as int, parts@.map_values(pv), cur@) == goal,
            decreases s.len() - self.pos,
        {
            if self.pos >= self.src.len() {
                return Err("unterminated string literal".to_owned());
            }
            let ghost before = parts@.map_values(pv);
            let c: char = self.peek();
            if c == '"' {
                self.bump();
                if !cur.as_str().is_empty() || parts.len() == 0 {
                    let ghost text = cur@;
                    parts.push(StrPart::Text(cur));
                    assert(parts@.map_values(pv) =~= before.push(StrPartView::Text(text)));
                }
                return Ok(Tok::Str(parts));
            } else if c == '\\' {
                self.bump();
                if self.pos >= self.src.len() {
                    return Err("unterminated string literal".to_owned());
                }
                push_char(&mut cur, escaped(self.peek()));
                self.bump();
            } else if c == '$' {
                let ghost text = cur@;
                // Flush the pending literal run before the interpolation.
                if !cur.as_str().is_empty() {
                    parts.push(StrPart::Text(cur));
                    cur = String::new();
                    assert(parts@.map_values(pv) =~= before.push(StrPartView::Text(text)));
                }
                assert(parts@.map_values(pv) == flushed(before, text));
                assert(cur@ =~= Seq::empty());
                self.bump();
                if self.peek() == '{' {
                    self.bump();
                    let from: usize = self.pos;
                    match self.find_template_end() {
                        None => {
                            return Err("unterminated `${` in string".to_owned());
                        },
                        Some(to) => {
                            let expr: String = string_of(&self.src, from, to);
                            let ghost e = expr@;
                            parts.push(StrPart::Expr(expr));
                            assert(parts@.map_values(pv) =~= flushed(before, text).push(
                                StrPartView::Expr(e),
                            ));
                            self.bump();
                        },
                    }
                } else if ident_start(self.peek()) {
                    let from: usize = self.pos;
                    proof {
                        lemma_ident_end_bounds(s, from as int);
                    }
                    self.skip_ident();
                    let expr: String = string_of(&self.src, from, self.pos);
                    let ghost e = expr@;
                    parts.push(StrPart::Expr(expr));
                    assert(parts@.map_values(pv) =~= flushed(before, text).push(
                        StrPartView::Expr(e),
                    ));
                } else {
                    push_char(&mut cur, '$');
                    assert(cur@ =~= seq!['$']);
                }
            } else {
                push_char(&mut cur, c);
                self.bump();
            }
        }
    }

    /// Move to the `}` that closes the template expression starting here, and
    /// answer its position.
    fn find_template_end(&mut self) -> (r: Option<usize>)
        requires
            old(self).wf(),
            old(self).pos > 0,
        ensures
            match r {
                Some(q) => template_end(old(self).src@, old(self).pos as int, 1) == Some(q as int)
                    && final(self).moved(*old(self), q as int) && old(self).pos <= q < old(
                    self,
                ).src@.len(),
                None => template_end(old(self).src@, old(self).pos as int, 1) is None,
            },
    {
        let mut depth: usize = 1;
        while self.pos < self.src.len()
            invariant
                self.moved(*old(self), self.pos as int),
                self.pos >= old(self).pos,
                1 <= depth <= self.pos - old(self).pos + 1,
                old(self).pos > 0,
                template_end(self.src@, self.pos as int, depth as int) == template_end(
                    old(self).src@,
                    old(self).pos as int,
                    1,
                ),
            decreases self.src@.len() - self.pos,
        {
            let c: char = self.peek();
            if c == '{' {
                depth = depth + 1;
            } else if c == '}' {
                if depth == 1 {
                    return Some(self.pos);
                }
                depth = depth - 1;
            }
            self.bump();
        }
        None
    }

    /// An operator or a punctuation mark.
    fn operator(&mut self) -> (r: Result<Tok, String>)
        requires
            old(self).wf(),
            old(self).pos < old(self).src@.len(),
        ensures
            match r {
                Ok(t) => operator_at(old(self).src@, old(self).pos as int) == Ok::<_, Seq<char>>(
                    (t@, final(self).pos as int),
                ) && final(self).moved(*old(self), final(self).pos as int),
                Err(e) => operator_at(old(self).src@, old(self).pos as int)
                    == Err::<(TokView, int), _>(e@),
            },
    {
        let c: char = self.peek();
        let d: char = self.peek_ahead(1);
        match two_char_operator(c, d) {
            Some(t) => {
                self.bump();
                self.bump();
                Ok(t)
            },
            None => match one_char_operator(c) {
                Some(t) => {
                    self.bump();
                    Ok(t)
                },
                None => Err(unexpected_message(c)),
            },
        }
    }
}

proof fn lemma_newlines_grow(s: Seq<char>, p: int, q: int)
    requires
        p <= q,
    ensures
        newlines(s, p) <= newlines(s, q),
    decreases q - p,
{
    if p < q {
        lemma_newlines_grow(s, p, q - 1);
    }
}

/// Whether the lines of a text fit the counter that a token carries.
pub fn has_room_for_lines(src: &str) -> (r: bool)
    ensures
        r == lines_fit(src@),
{
    let chars: Vec<char> = chars_of_str(src);
    let mut line: u32 = 1;
    let mut i: usize = 0;
    while i < chars.len()
        invariant
            i <= chars@.len(),
            chars@ == src@,
            line == line_at(src@, i as int),
        decreases chars.len() - i,
    {
        if chars[i] == '\n' {
            if line == u32::MAX {
                proof {
                    lemma_newlines_grow(src@, i + 1, src@.len() as int);
                }
                return false;
            }
            line = line + 1;
        }
        i = i + 1;
    }
    true
}

fn ascii_digit(c: char) -> (r: bool)
    ensures
        r == is_digit(c),
{
    '0' <= c && c <= '9'
}

fn ident_start(c: char) -> (r: bool)
    ensures
        r == is_ident_start(c),
{
    ('a' <= c && c <= 'z') || ('A' <= c && c <= 'Z') || c == '_'
}

fn ident_char(c: char) -> (r: bool)
    ensures
        r == is_ident_char(c),
{
    ident_start(c) || ascii_digit(c)
}

fn escaped(c: char) -> (r: char)
    ensures
        r == string_escape(c),
{
    match c {
        'n' => '\n',
        't' => '\t',
        'r' => '\r',
        '0' => '\0',
        _ => c,
    }
}

/// The characters `from .. to` of `v` without `_` separators.
fn strip_seps(v: &Vec<char>, from: usize, to: usize) -> (r: Vec<char>)
    requires
        from <= to <= v@.len(),
    ensures
        r@ == without_seps(v@.subrange(from as int, to as int)),
{
    let mut r: Vec<char> = Vec::new();
    let mut i: usize = from;
    while i < to
        invariant
            from <= i <= to <= v@.len(),
            r@ == without_seps(v@.subrange(from as int, i as int)),
        decreases to - i,
    {
        let ghost part = v@.subrange(from as int, i + 1);
        assert(part.drop_last() =~= v@.subrange(from as int, i as int));
        assert(part.last() == v@[i as int]);
        if v[i] != '_' {
            r.push(v[i]);
        }
        i = i + 1;
    }
    r
}

fn two_char_operator(c: char, d: char) -> (r: Option<Tok>)
    ensures
        r == double_operator(c, d),
{
    if c == '+' && d == '=' {
        Some(Tok::PlusEq)
    } else if c == '-' && d == '=' {
        Some(Tok::MinusEq)
    } else if c == '*' && d == '=' {
        Some(Tok::StarEq)
    } else if c == '/' && d == '=' {
        Some(Tok::SlashEq)
    } else if c == '%' && d == '=' {
        Some(Tok::PercentEq)
    } else if c == '=' && d == '=' {
        Some(Tok::EqEq)
    } else if c == '!' && d == '=' {
        Some(Tok::NotEq)
    } else if c == '<' && d == '=' {
        Some(Tok::Le)
    } else if c == '>' && d == '=' {
        Some(Tok::Ge)
    } else if c == '&' && d == '&' {
        Some(Tok::AndAnd)
    } else if c == '|' && d == '|' {
        Some(Tok::OrOr)
    } else if c == '-' && d == '>' {
        Some(Tok::Arrow)
    } else if c == '.' && d == '.' {
        Some(Tok::DotDot)
    } else {
        None
    }
}

fn one_char_operator(c: char) -> (r: Option<Tok>)
    ensures
        r == single_operator(c),
{
    match c {
        '+' => Some(Tok::Plus),
        '-' => Some(Tok::Minus),
        '*' => Some(Tok::Star),
        '/' => Some(Tok::Slash),
        '%' => Some(Tok::Percent),
        '=' => Some(Tok::Assign),
        '<' => Some(Tok::Lt),
        '>' => Some(Tok::Gt),
        '!' => Some(Tok::Not),
        '(' => Some(Tok::LParen),
        ')' => Some(Tok::RParen),
        '{' => Some(Tok::LBrace),
        '}' => Some(Tok::RBrace),
        '[' => Some(Tok::LBracket),
        ']' => Some(Tok::RBracket),
        ',' => Some(Tok::Comma),
        ':' => Some(Tok::Colon),
        ';' => Some(Tok::Semi),
        '.' => Some(Tok::Dot),
        '@' => Some(Tok::At),
        '?' => Some(Tok::Question),
        _ => None,
    }
}

/// The message for a character that starts no token.
fn unexpected_message(c: char) -> (m: String)
    ensures
        m@ == unexpected_character(c),
{
    let code: u32 = c as u32;
    let lead: u8 = if code < 0x80 {
        code as u8
    } else if code < 0x800 {
        (0xc0 + code / 0x40) as u8
    } else if code < 0x10000 {
        (0xe0 + code / 0x1000) as u8
    } else {
        (0xf0 + code / 0x40000) as u8
    };
    let mut name: String = String::new();
    push_char(&mut name, lead as char);
    assert(name@ =~= seq![lead_byte(c as int) as char]);
    concat3("unexpected character '", name.as_str(), "'")
}

// ── Laws ────────────────────────────────────────────────────────────────────

proof fn lemma_no_eof_token(s: Seq<char>, p: int)
    ensures
        token_at(s, p) matches Ok((t, _)) ==> t != TokView::Plain(Tok::Eof),
{
}

/// The tokens of a text end in the end marker, which stands on its last line and
/// nowhere else.
pub proof fn law_end_marker_is_last(s: Seq<char>, p: int)
    requires
        0 <= p <= s.len(),
    ensures
        tokens_from(s, p) matches Ok(toks) ==> {
            &&& toks.len() > 0
            &&& toks.last().tok == TokView::Plain(Tok::Eof)
            &&& toks.last().line == line_at(s, s.len() as int)
            &&& forall|i: int|
                0 <= i < toks.len() - 1 ==> (#[trigger] toks[i]).tok != TokView::Plain(Tok::Eof)
        },
    decreases s.len() - p,
{
    lemma_trivia_end_bounds(s, p);
    if let Some(q) = trivia_end(s, p) {
        if q < s.len() {
            if let Ok((t, r)) = token_at(s, q) {
                lemma_token_progress(s, q);
                lemma_no_eof_token(s, q);
                law_end_marker_is_last(s, r);
                if let Ok(rest) = tokens_from(s, r) {
                    let first = seq![SpannedView { tok: t, line: line_at(s, q) }];
                    let toks = first + rest;
                    assert forall|i: int| 0 <= i < toks.len() - 1 implies (#[trigger] toks[i]).tok
                        != TokView::Plain(Tok::Eof) by {
                        if i > 0 {
                            assert(toks[i] == rest[i - 1]);
                        }
                    }
                }
            }
        }
    }
}

proof fn lemma_lines_grow(s: Seq<char>, p: int, q: int)
    requires
        p <= q,
    ensures
        line_at(s, p) <= line_at(s, q),
        1 <= line_at(s, p),
    decreases q - p, q,
{
    lemma_newlines_count(s, p);
    if p < q {
        lemma_lines_grow(s, p, q - 1);
    }
}

proof fn lemma_newlines_count(s: Seq<char>, p: int)
    ensures
        newlines(s, p) >= 0,
    decreases p,
{
    if p > 0 {
        lemma_newlines_count(s, p - 1);
    }
}

/// The lines of the tokens count from 1 and never go back.
pub proof fn law_lines_never_go_back(s: Seq<char>, p: int)
    requires
        0 <= p <= s.len(),
    ensures
        tokens_from(s, p) matches Ok(toks) ==> {
            &&& forall|i: int| 0 <= i < toks.len() ==> line_at(s, p) <= (#[trigger] toks[i]).line
            &&& forall|i: int, j: int|
                0 <= i <= j < toks.len() ==> 1 <= (#[trigger] toks[i]).line <= (
                #[trigger] toks[j]).line
        },
    decreases s.len() - p,
{
    lemma_trivia_end_bounds(s, p);
    if let Some(q) = trivia_end(s, p) {
        lemma_lines_grow(s, p, q);
        if q < s.len() {
            if let Ok((t, r)) = token_at(s, q) {
                lemma_token_progress(s, q);
                lemma_lines_grow(s, q, r);
                law_lines_never_go_back(s, r);
                if let Ok(rest) = tokens_from(s, r) {
                    let toks = seq![SpannedView { tok: t, line: line_at(s, q) }] + rest;
                    assert forall|i: int| 0 <= i < toks.len() implies line_at(s, p) <= (
                    #[trigger] toks[i]).line by {
                        if i > 0 {
                            assert(toks[i] == rest[i - 1]);
                        }
                    }
                    assert forall|i: int, j: int| 0 <= i <= j < toks.len() implies 1 <= (
                    #[trigger] toks[i]).line <= (#[trigger] toks[j]).line by {
                        if i > 0 {
                            assert(toks[i] == rest[i - 1]);
                            assert(toks[j] == rest[j - 1]);
                        } else if j > 0 {
                            assert(toks[j] == rest[j - 1]);
                        }
                    }
                }
            }
        }
    }
}

} // verus!
