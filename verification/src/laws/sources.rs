//! How a source text and its tokens correspond.
use crate::token::Tok;
use vstd::prelude::*;

verus! {

use crate::lexer::{
    all_digits, comment_end, digits_end, digits_number, double_operator, exponent_end,
    fraction_end, ident_end, is_blank, is_digit, is_ident_char, is_ident_start,
    lemma_token_progress, line_at, line_end, literal_int, peek_at, prefix_base, single_operator,
    string_rest, token_at, tokens_from, trivia_end, without_seps, word_token,
};
use crate::token::{SpannedView, StrPartView, TokView};

/// How a token is written that is always written alike: a keyword, an operator or a
/// sign.
pub open spec fn spelling(t: Tok) -> Option<Seq<char>> {
    match t {
        Tok::Fun => Some("fun"@),
        Tok::Val => Some("val"@),
        Tok::Var => Some("var"@),
        Tok::If => Some("if"@),
        Tok::Else => Some("else"@),
        Tok::While => Some("while"@),
        Tok::For => Some("for"@),
        Tok::In => Some("in"@),
        Tok::Return => Some("return"@),
        Tok::Until => Some("until"@),
        Tok::DownTo => Some("downTo"@),
        Tok::Step => Some("step"@),
        Tok::When => Some("when"@),
        Tok::Is => Some("is"@),
        Tok::Break => Some("break"@),
        Tok::Continue => Some("continue"@),
        Tok::Null => Some("null"@),
        Tok::Bool(true) => Some("true"@),
        Tok::Bool(false) => Some("false"@),
        Tok::PlusEq => Some("+="@),
        Tok::MinusEq => Some("-="@),
        Tok::StarEq => Some("*="@),
        Tok::SlashEq => Some("/="@),
        Tok::PercentEq => Some("%="@),
        Tok::EqEq => Some("=="@),
        Tok::NotEq => Some("!="@),
        Tok::Le => Some("<="@),
        Tok::Ge => Some(">="@),
        Tok::AndAnd => Some("&&"@),
        Tok::OrOr => Some("||"@),
        Tok::Arrow => Some("->"@),
        Tok::DotDot => Some(".."@),
        Tok::Plus => Some("+"@),
        Tok::Minus => Some("-"@),
        Tok::Star => Some("*"@),
        Tok::Slash => Some("/"@),
        Tok::Percent => Some("%"@),
        Tok::Assign => Some("="@),
        Tok::Lt => Some("<"@),
        Tok::Gt => Some(">"@),
        Tok::Not => Some("!"@),
        Tok::LParen => Some("("@),
        Tok::RParen => Some(")"@),
        Tok::LBrace => Some("{"@),
        Tok::RBrace => Some("}"@),
        Tok::LBracket => Some("["@),
        Tok::RBracket => Some("]"@),
        Tok::Comma => Some(","@),
        Tok::Colon => Some(":"@),
        Tok::Semi => Some(";"@),
        Tok::Dot => Some("."@),
        Tok::At => Some("@"@),
        Tok::Question => Some("?"@),
        _ => None,
    }
}

/// Whether a token is a keyword or a truth value.
pub open spec fn is_word(t: Tok) -> bool {
    spelling(t) matches Some(w) && w.len() > 0 && 'a' <= w[0] <= 'z'
}

proof fn lemma_operators_are_spelled(c: char, d: char)
    ensures
        double_operator(c, d) matches Some(t) ==> spelling(t) == Some(seq![c, d]),
        single_operator(c) matches Some(t) ==> spelling(t) == Some(seq![c]),
{
    reveal_strlit("+=");
    reveal_strlit("-=");
    reveal_strlit("*=");
    reveal_strlit("/=");
    reveal_strlit("%=");
    reveal_strlit("==");
    reveal_strlit("!=");
    reveal_strlit("<=");
    reveal_strlit(">=");
    reveal_strlit("&&");
    reveal_strlit("||");
    reveal_strlit("->");
    reveal_strlit("..");
    reveal_strlit("+");
    reveal_strlit("-");
    reveal_strlit("*");
    reveal_strlit("/");
    reveal_strlit("%");
    reveal_strlit("=");
    reveal_strlit("<");
    reveal_strlit(">");
    reveal_strlit("!");
    reveal_strlit("(");
    reveal_strlit(")");
    reveal_strlit("{");
    reveal_strlit("}");
    reveal_strlit("[");
    reveal_strlit("]");
    reveal_strlit(",");
    reveal_strlit(":");
    reveal_strlit(";");
    reveal_strlit(".");
    reveal_strlit("@");
    reveal_strlit("?");
    assert("+="@ =~= seq!['+', '=']);
    assert("-="@ =~= seq!['-', '=']);
    assert("*="@ =~= seq!['*', '=']);
    assert("/="@ =~= seq!['/', '=']);
    assert("%="@ =~= seq!['%', '=']);
    assert("=="@ =~= seq!['=', '=']);
    assert("!="@ =~= seq!['!', '=']);
    assert("<="@ =~= seq!['<', '=']);
    assert(">="@ =~= seq!['>', '=']);
    assert("&&"@ =~= seq!['&', '&']);
    assert("||"@ =~= seq!['|', '|']);
    assert("->"@ =~= seq!['-', '>']);
    assert(".."@ =~= seq!['.', '.']);
    assert("+"@ =~= seq!['+']);
    assert("-"@ =~= seq!['-']);
    assert("*"@ =~= seq!['*']);
    assert("/"@ =~= seq!['/']);
    assert("%"@ =~= seq!['%']);
    assert("="@ =~= seq!['=']);
    assert("<"@ =~= seq!['<']);
    assert(">"@ =~= seq!['>']);
    assert("!"@ =~= seq!['!']);
    assert("("@ =~= seq!['(']);
    assert(")"@ =~= seq![')']);
    assert("{"@ =~= seq!['{']);
    assert("}"@ =~= seq!['}']);
    assert("["@ =~= seq!['[']);
    assert("]"@ =~= seq![']']);
    assert(","@ =~= seq![',']);
    assert(":"@ =~= seq![':']);
    assert(";"@ =~= seq![';']);
    assert("."@ =~= seq!['.']);
    assert("@"@ =~= seq!['@']);
    assert("?"@ =~= seq!['?']);
}

proof fn lemma_words_are_spelled(w: Seq<char>)
    ensures
        word_token(w) matches TokView::Plain(t) ==> spelling(t) == Some(w),
        word_token(w) matches TokView::Ident(v) ==> v == w,
        !(word_token(w) is Float),
        !(word_token(w) is Str),
{
}

proof fn lemma_words_are_found(t: Tok, w: Seq<char>)
    requires
        is_word(t),
        spelling(t) == Some(w),
    ensures
        word_token(w) == TokView::Plain(t),
        w.len() > 0,
        is_ident_start(w[0]),
        forall|i: int| 0 <= i < w.len() ==> is_ident_char(#[trigger] w[i]),
{
    reveal_strlit("fun");
    reveal_strlit("val");
    reveal_strlit("var");
    reveal_strlit("if");
    reveal_strlit("else");
    reveal_strlit("while");
    reveal_strlit("for");
    reveal_strlit("in");
    reveal_strlit("return");
    reveal_strlit("until");
    reveal_strlit("downTo");
    reveal_strlit("step");
    reveal_strlit("when");
    reveal_strlit("is");
    reveal_strlit("break");
    reveal_strlit("continue");
    reveal_strlit("null");
    reveal_strlit("true");
    reveal_strlit("false");
    assert("if"@.len() == 2 && "if"@[1] == 'f');
    assert("in"@.len() == 2 && "in"@[1] == 'n');
    assert("is"@.len() == 2 && "is"@[1] == 's');
    assert("fun"@.len() == 3 && "fun"@[1] == 'u' && "fun"@[2] == 'n');
    assert("val"@.len() == 3 && "val"@[1] == 'a' && "val"@[2] == 'l');
    assert("var"@.len() == 3 && "var"@[1] == 'a' && "var"@[2] == 'r');
    assert("for"@.len() == 3 && "for"@[1] == 'o' && "for"@[2] == 'r');
    assert("else"@.len() == 4 && "else"@[0] == 'e');
    assert("step"@.len() == 4 && "step"@[0] == 's');
    assert("when"@.len() == 4 && "when"@[0] == 'w');
    assert("null"@.len() == 4 && "null"@[0] == 'n');
    assert("true"@.len() == 4 && "true"@[0] == 't');
    assert("while"@.len() == 5 && "while"@[0] == 'w');
    assert("until"@.len() == 5 && "until"@[0] == 'u');
    assert("break"@.len() == 5 && "break"@[0] == 'b');
    assert("false"@.len() == 5 && "false"@[0] == 'f');
    assert("return"@.len() == 6 && "return"@[0] == 'r');
    assert("downTo"@.len() == 6 && "downTo"@[0] == 'd');
    assert("continue"@.len() == 8);
    reveal_strlit("+=");
    reveal_strlit("-=");
    reveal_strlit("*=");
    reveal_strlit("/=");
    reveal_strlit("%=");
    reveal_strlit("==");
    reveal_strlit("!=");
    reveal_strlit("<=");
    reveal_strlit(">=");
    reveal_strlit("&&");
    reveal_strlit("||");
    reveal_strlit("->");
    reveal_strlit("..");
    reveal_strlit("+");
    reveal_strlit("-");
    reveal_strlit("*");
    reveal_strlit("/");
    reveal_strlit("%");
    reveal_strlit("=");
    reveal_strlit("<");
    reveal_strlit(">");
    reveal_strlit("!");
    reveal_strlit("(");
    reveal_strlit(")");
    reveal_strlit("{");
    reveal_strlit("}");
    reveal_strlit("[");
    reveal_strlit("]");
    reveal_strlit(",");
    reveal_strlit(":");
    reveal_strlit(";");
    reveal_strlit(".");
    reveal_strlit("@");
    reveal_strlit("?");
    assert("+="@[0] == '+');
    assert("-="@[0] == '-');
    assert("*="@[0] == '*');
    assert("/="@[0] == '/');
    assert("%="@[0] == '%');
    assert("=="@[0] == '=');
    assert("!="@[0] == '!');
    assert("<="@[0] == '<');
    assert(">="@[0] == '>');
    assert("&&"@[0] == '&');
    assert("||"@[0] == '|');
    assert("->"@[0] == '-');
    assert(".."@[0] == '.');
    assert("+"@[0] == '+');
    assert("-"@[0] == '-');
    assert("*"@[0] == '*');
    assert("/"@[0] == '/');
    assert("%"@[0] == '%');
    assert("="@[0] == '=');
    assert("<"@[0] == '<');
    assert(">"@[0] == '>');
    assert("!"@[0] == '!');
    assert("("@[0] == '(');
    assert(")"@[0] == ')');
    assert("{"@[0] == '{');
    assert("}"@[0] == '}');
    assert("["@[0] == '[');
    assert("]"@[0] == ']');
    assert(","@[0] == ',');
    assert(":"@[0] == ':');
    assert(";"@[0] == ';');
    assert("."@[0] == '.');
    assert("@"@[0] == '@');
    assert("?"@[0] == '?');
}

proof fn lemma_signs_are_found(t: Tok, w: Seq<char>)
    requires
        !is_word(t),
        spelling(t) == Some(w),
    ensures
        w.len() == 1 || w.len() == 2,
        w.len() == 2 ==> double_operator(w[0], w[1]) == Some(t),
        w.len() == 1 ==> single_operator(w[0]) == Some(t),
        !is_digit(w[0]),
        !is_ident_start(w[0]),
        w[0] != '"',
        w[0] != '\'',
{
    reveal_strlit("fun");
    reveal_strlit("val");
    reveal_strlit("var");
    reveal_strlit("if");
    reveal_strlit("else");
    reveal_strlit("while");
    reveal_strlit("for");
    reveal_strlit("in");
    reveal_strlit("return");
    reveal_strlit("until");
    reveal_strlit("downTo");
    reveal_strlit("step");
    reveal_strlit("when");
    reveal_strlit("is");
    reveal_strlit("break");
    reveal_strlit("continue");
    reveal_strlit("null");
    reveal_strlit("true");
    reveal_strlit("false");
    reveal_strlit("+=");
    reveal_strlit("-=");
    reveal_strlit("*=");
    reveal_strlit("/=");
    reveal_strlit("%=");
    reveal_strlit("==");
    reveal_strlit("!=");
    reveal_strlit("<=");
    reveal_strlit(">=");
    reveal_strlit("&&");
    reveal_strlit("||");
    reveal_strlit("->");
    reveal_strlit("..");
    reveal_strlit("+");
    reveal_strlit("-");
    reveal_strlit("*");
    reveal_strlit("/");
    reveal_strlit("%");
    reveal_strlit("=");
    reveal_strlit("<");
    reveal_strlit(">");
    reveal_strlit("!");
    reveal_strlit("(");
    reveal_strlit(")");
    reveal_strlit("{");
    reveal_strlit("}");
    reveal_strlit("[");
    reveal_strlit("]");
    reveal_strlit(",");
    reveal_strlit(":");
    reveal_strlit(";");
    reveal_strlit(".");
    reveal_strlit("@");
    reveal_strlit("?");
    assert("+="@[0] == '+' && "+="@[1] == '=' && "+="@.len() == 2);
    assert("-="@[0] == '-' && "-="@[1] == '=' && "-="@.len() == 2);
    assert("*="@[0] == '*' && "*="@[1] == '=' && "*="@.len() == 2);
    assert("/="@[0] == '/' && "/="@[1] == '=' && "/="@.len() == 2);
    assert("%="@[0] == '%' && "%="@[1] == '=' && "%="@.len() == 2);
    assert("=="@[0] == '=' && "=="@[1] == '=' && "=="@.len() == 2);
    assert("!="@[0] == '!' && "!="@[1] == '=' && "!="@.len() == 2);
    assert("<="@[0] == '<' && "<="@[1] == '=' && "<="@.len() == 2);
    assert(">="@[0] == '>' && ">="@[1] == '=' && ">="@.len() == 2);
    assert("&&"@[0] == '&' && "&&"@[1] == '&' && "&&"@.len() == 2);
    assert("||"@[0] == '|' && "||"@[1] == '|' && "||"@.len() == 2);
    assert("->"@[0] == '-' && "->"@[1] == '>' && "->"@.len() == 2);
    assert(".."@[0] == '.' && ".."@[1] == '.' && ".."@.len() == 2);
    assert("+"@[0] == '+' && "+"@.len() == 1);
    assert("-"@[0] == '-' && "-"@.len() == 1);
    assert("*"@[0] == '*' && "*"@.len() == 1);
    assert("/"@[0] == '/' && "/"@.len() == 1);
    assert("%"@[0] == '%' && "%"@.len() == 1);
    assert("="@[0] == '=' && "="@.len() == 1);
    assert("<"@[0] == '<' && "<"@.len() == 1);
    assert(">"@[0] == '>' && ">"@.len() == 1);
    assert("!"@[0] == '!' && "!"@.len() == 1);
    assert("("@[0] == '(' && "("@.len() == 1);
    assert(")"@[0] == ')' && ")"@.len() == 1);
    assert("{"@[0] == '{' && "{"@.len() == 1);
    assert("}"@[0] == '}' && "}"@.len() == 1);
    assert("["@[0] == '[' && "["@.len() == 1);
    assert("]"@[0] == ']' && "]"@.len() == 1);
    assert(","@[0] == ',' && ","@.len() == 1);
    assert(":"@[0] == ':' && ":"@.len() == 1);
    assert(";"@[0] == ';' && ";"@.len() == 1);
    assert("."@[0] == '.' && "."@.len() == 1);
    assert("@"@[0] == '@' && "@"@.len() == 1);
    assert("?"@[0] == '?' && "?"@.len() == 1);
    assert("fun"@[0] == 'f' && "fun"@.len() == 3);
    assert("val"@[0] == 'v' && "val"@.len() == 3);
    assert("var"@[0] == 'v' && "var"@.len() == 3);
    assert("if"@[0] == 'i' && "if"@.len() == 2);
    assert("else"@[0] == 'e' && "else"@.len() == 4);
    assert("while"@[0] == 'w' && "while"@.len() == 5);
    assert("for"@[0] == 'f' && "for"@.len() == 3);
    assert("in"@[0] == 'i' && "in"@.len() == 2);
    assert("return"@[0] == 'r' && "return"@.len() == 6);
    assert("until"@[0] == 'u' && "until"@.len() == 5);
    assert("downTo"@[0] == 'd' && "downTo"@.len() == 6);
    assert("step"@[0] == 's' && "step"@.len() == 4);
    assert("when"@[0] == 'w' && "when"@.len() == 4);
    assert("is"@[0] == 'i' && "is"@.len() == 2);
    assert("break"@[0] == 'b' && "break"@.len() == 5);
    assert("continue"@[0] == 'c' && "continue"@.len() == 8);
    assert("null"@[0] == 'n' && "null"@.len() == 4);
    assert("true"@[0] == 't' && "true"@.len() == 4);
    assert("false"@[0] == 'f' && "false"@.len() == 5);
}

proof fn lemma_ident_end(s: Seq<char>, p: int)
    requires
        0 <= p <= s.len(),
    ensures
        p <= ident_end(s, p) <= s.len(),
        forall|i: int| p <= i < ident_end(s, p) ==> is_ident_char(#[trigger] s[i]),
        ident_end(s, p) < s.len() ==> !is_ident_char(s[ident_end(s, p)]),
    decreases s.len() - p,
{
    if p < s.len() && is_ident_char(s[p]) {
        lemma_ident_end(s, p + 1);
    }
}

proof fn lemma_ident_end_is(s: Seq<char>, p: int, e: int)
    requires
        0 <= p <= e <= s.len(),
        forall|i: int| p <= i < e ==> is_ident_char(#[trigger] s[i]),
        e < s.len() ==> !is_ident_char(s[e]),
    ensures
        ident_end(s, p) == e,
    decreases e - p,
{
    if p < e {
        lemma_ident_end_is(s, p + 1, e);
    }
}

/// A keyword, an operator or a sign is the token of the text that spells it: what
/// stands between the start and the end of such a token is how it is written.
pub proof fn law_tokens_spell_their_source(s: Seq<char>, p: int, t: Tok, q: int)
    requires
        0 <= p < s.len(),
        token_at(s, p) == Ok::<(TokView, int), Seq<char>>((TokView::Plain(t), q)),
        spelling(t) is Some,
    ensures
        p < q <= s.len(),
        s.subrange(p, q) == spelling(t)->0,
{
    let c = s[p];
    lemma_token_progress(s, p);
    if is_digit(c) || c == '"' || c == '\'' {
    } else if is_ident_start(c) {
        lemma_words_are_spelled(s.subrange(p, ident_end(s, p)));
    } else {
        lemma_operators_are_spelled(c, peek_at(s, p + 1));
        if p + 2 <= s.len() {
            assert(s.subrange(p, p + 2) =~= seq![c, s[p + 1]]);
        }
        assert(s.subrange(p, p + 1) =~= seq![c]);
    }
}

/// What spells a keyword, an operator or a sign is read as that token: a keyword where
/// the word ends, a sign of one character where it does not begin a longer one.
pub proof fn law_spelled_tokens_are_read(s: Seq<char>, p: int, t: Tok, w: Seq<char>)
    requires
        spelling(t) == Some(w),
        0 <= p,
        p + w.len() <= s.len(),
        s.subrange(p, p + w.len()) == w,
        is_word(t) && p + w.len() < s.len() ==> !is_ident_char(s[p + w.len()]),
        w.len() == 1 && p + 2 <= s.len() ==> forall|u: Tok|
            #[trigger] spelling(u) != Some(s.subrange(p, p + 2)),
    ensures
        token_at(s, p) == Ok::<(TokView, int), Seq<char>>((TokView::Plain(t), p + w.len())),
{
    assert forall|i: int| 0 <= i < w.len() implies #[trigger] w[i] == s[p + i] by {
        assert(s.subrange(p, p + w.len())[i] == s[p + i]);
    }
    if is_word(t) {
        lemma_words_are_found(t, w);
        let e = p + w.len();
        assert forall|i: int| p <= i < e implies is_ident_char(#[trigger] s[i]) by {
            assert(w[i - p] == s[i]);
        }
        lemma_ident_end_is(s, p, e);
        assert(w[0] == s[p]);
    } else {
        lemma_signs_are_found(t, w);
        assert(w[0] == s[p]);
        if w.len() == 2 {
            assert(w[1] == s[p + 1]);
        } else {
            let d = peek_at(s, p + 1);
            lemma_operators_are_spelled(s[p], d);
            if let Some(u) = double_operator(s[p], d) {
                assert(p + 1 < s.len());
                assert(s.subrange(p, p + 2) =~= seq![s[p], d]);
                assert(spelling(u) == Some(s.subrange(p, p + 2)));
            }
        }
    }
}

/// No two keywords, operators or signs are written alike.
pub proof fn law_spellings_are_told_apart(t: Tok, u: Tok)
    requires
        spelling(t) is Some,
        spelling(t) == spelling(u),
    ensures
        t == u,
{
    let w = spelling(t)->0;
    assert(is_word(t) == is_word(u));
    if is_word(t) {
        lemma_words_are_found(t, w);
        lemma_words_are_found(u, w);
    } else {
        lemma_signs_are_found(t, w);
        lemma_signs_are_found(u, w);
    }
}

/// A name is read as it is written: from its first character to the last that can
/// belong to a name. It is never the spelling of a keyword.
pub proof fn law_names_are_read_whole(s: Seq<char>, p: int, w: Seq<char>, q: int)
    requires
        0 <= p < s.len(),
        token_at(s, p) == Ok::<(TokView, int), Seq<char>>((TokView::Ident(w), q)),
    ensures
        p < q <= s.len(),
        w == s.subrange(p, q),
        is_ident_start(w[0]),
        forall|i: int| 0 <= i < w.len() ==> is_ident_char(#[trigger] w[i]),
        q < s.len() ==> !is_ident_char(s[q]),
        forall|t: Tok| #[trigger] spelling(t) != Some(w),
{
    lemma_token_progress(s, p);
    lemma_ident_end(s, p);
    let c = s[p];
    if is_digit(c) || c == '"' || c == '\'' {
    } else if is_ident_start(c) {
        let v = s.subrange(p, ident_end(s, p));
        lemma_words_are_spelled(v);
        assert forall|t: Tok| #[trigger] spelling(t) != Some(w) by {
            if spelling(t) == Some(w) {
                if is_word(t) {
                    lemma_words_are_found(t, w);
                } else {
                    lemma_signs_are_found(t, w);
                    assert(w[0] == c);
                }
            }
        }
    }
}

/// A word that spells no keyword is a name.
pub proof fn law_other_words_are_names(s: Seq<char>, p: int, q: int)
    requires
        0 <= p < q <= s.len(),
        is_ident_start(s[p]),
        forall|i: int| p <= i < q ==> is_ident_char(#[trigger] s[i]),
        q < s.len() ==> !is_ident_char(s[q]),
        forall|t: Tok| #[trigger] spelling(t) != Some(s.subrange(p, q)),
    ensures
        token_at(s, p) == Ok::<(TokView, int), Seq<char>>((TokView::Ident(s.subrange(p, q)), q)),
{
    lemma_ident_end_is(s, p, q);
    let w = s.subrange(p, q);
    lemma_words_are_spelled(w);
    if let TokView::Plain(t) = word_token(w) {
        assert(spelling(t) == Some(w));
    }
}


// ── Numbers ─────────────────────────────────────────────────────────────────

/// Whether a text is nothing but decimal digits, and has one.
pub open spec fn is_number(s: Seq<char>) -> bool {
    &&& s.len() > 0
    &&& forall|i: int| 0 <= i < s.len() ==> '0' <= #[trigger] s[i] <= '9'
}

proof fn lemma_without_seps(s: Seq<char>)
    requires
        forall|i: int| 0 <= i < s.len() ==> #[trigger] s[i] != '_',
    ensures
        without_seps(s) == s,
    decreases s.len(),
{
    if s.len() > 0 {
        assert forall|i: int| 0 <= i < s.drop_last().len() implies #[trigger] s.drop_last()[i]
            != '_' by {
            assert(s.drop_last()[i] == s[i]);
        }
        lemma_without_seps(s.drop_last());
        assert(s.drop_last().push(s.last()) =~= s);
    } else {
        assert(s =~= Seq::empty());
    }
}

proof fn lemma_digits_end(s: Seq<char>, p: int)
    requires
        0 <= p <= s.len(),
        forall|i: int| 0 <= i < s.len() ==> '0' <= #[trigger] s[i] <= '9',
    ensures
        digits_end(s, p) == s.len(),
    decreases s.len() - p,
{
    if p < s.len() {
        lemma_digits_end(s, p + 1);
    }
}

proof fn lemma_number(s: Seq<char>)
    requires
        is_number(s),
    ensures
        token_at(s, 0) == Ok::<(TokView, int), Seq<char>>(
            (TokView::Plain(Tok::Int(literal_int(s, 10) as i64)), s.len() as int),
        ),
        all_digits(s, 10),
{
    lemma_digits_end(s, 0);
    assert forall|i: int| 0 <= i < s.len() implies #[trigger] s[i] != '_' by {}
    assert(is_digit(s[0]));
    if s.len() > 1 {
        assert('0' <= s[1] <= '9');
    }
    assert(prefix_base(s, 0) == 10);
    assert(fraction_end(s, s.len() as int) == s.len());
    assert(exponent_end(s, s.len() as int) == s.len());
    assert(s.subrange(0, s.len() as int) =~= s);
    lemma_without_seps(s);
}

proof fn lemma_digits_number(s: Seq<char>)
    requires
        is_number(s) || s.len() == 0,
    ensures
        digits_number(s, 10) >= 0,
    decreases s.len(),
{
    if s.len() > 0 {
        assert forall|i: int| 0 <= i < s.drop_last().len() implies '0' <= #[trigger] s.drop_last()[i]
            <= '9' by {
            assert(s.drop_last()[i] == s[i]);
        }
        lemma_digits_number(s.drop_last());
        assert('0' <= s[s.len() - 1] <= '9');
    }
}

/// A number is read in base ten: one digit is its own value, and each digit more
/// makes ten times the number and the digit.
pub proof fn law_numbers_are_decimal(s: Seq<char>, c: char, n: i64)
    requires
        is_number(s),
        '0' <= c <= '9',
        token_at(s, 0) == Ok::<(TokView, int), Seq<char>>(
            (TokView::Plain(Tok::Int(n)), s.len() as int),
        ),
        digits_number(s, 10) <= i64::MAX,
    ensures
        token_at(seq![c], 0) == Ok::<(TokView, int), Seq<char>>(
            (TokView::Plain(Tok::Int((c as int - '0' as int) as i64)), 1),
        ),
        n * 10 + (c as int - '0' as int) <= i64::MAX ==> token_at(s.push(c), 0) == Ok::<
            (TokView, int),
            Seq<char>,
        >(
            (
                TokView::Plain(Tok::Int((n * 10 + (c as int - '0' as int)) as i64)),
                s.len() as int + 1,
            ),
        ),
{
    lemma_number(s);
    let one = seq![c];
    lemma_number(one);
    assert(one.drop_last() =~= Seq::empty());
    reveal_with_fuel(digits_number, 2);
    let t = s.push(c);
    assert forall|i: int| 0 <= i < t.len() implies '0' <= #[trigger] t[i] <= '9' by {
        if i < s.len() {
            assert(t[i] == s[i]);
        }
    }
    lemma_number(t);
    assert(t.drop_last() =~= s);
    lemma_digits_number(s);
}

// ── Blanks and comments ─────────────────────────────────────────────────────

/// Blanks stand for nothing.
pub proof fn law_blanks_are_passed(s: Seq<char>, p: int)
    requires
        0 <= p < s.len(),
        s[p] == ' ' || s[p] == '\t' || s[p] == '\r' || s[p] == '\n',
    ensures
        tokens_from(s, p) == tokens_from(s, p + 1),
{
    assert(is_blank(s[p]));
    assert(trivia_end(s, p) == trivia_end(s, p + 1));
}

proof fn lemma_line_end(s: Seq<char>, p: int, e: int)
    requires
        0 <= p <= e <= s.len(),
        forall|i: int| p <= i < e ==> #[trigger] s[i] != '\n',
        e < s.len() ==> s[e] == '\n',
    ensures
        line_end(s, p) == e,
    decreases e - p,
{
    if p < e {
        lemma_line_end(s, p + 1, e);
    }
}

/// What stands behind `//` up to the end of the line stands for nothing.
pub proof fn law_line_comments_are_passed(s: Seq<char>, p: int, e: int)
    requires
        0 <= p,
        p + 2 <= e <= s.len(),
        s[p] == '/' && s[p + 1] == '/',
        forall|i: int| p <= i < e ==> #[trigger] s[i] != '\n',
        e < s.len() ==> s[e] == '\n',
    ensures
        tokens_from(s, p) == tokens_from(s, e),
{
    lemma_line_end(s, p + 1, e);
    assert(trivia_end(s, p) == trivia_end(s, e));
}

proof fn lemma_comment_end(s: Seq<char>, p: int, e: int)
    requires
        0 <= p <= e,
        e + 2 <= s.len(),
        s[e] == '*' && s[e + 1] == '/',
        forall|i: int|
            p <= i < e ==> !(#[trigger] s[i] == '*' && s[i + 1] == '/') && !(s[i] == '/' && s[i + 1]
                == '*'),
    ensures
        comment_end(s, p, 1) == Some(e + 2),
    decreases e - p,
{
    if p < e {
        assert(!(s[p] == '*' && s[p + 1] == '/'));
        lemma_comment_end(s, p + 1, e);
    } else {
        assert(comment_end(s, e + 2, 0) == Some(e + 2));
    }
}

/// What stands between `/*` and `*/` stands for nothing, line breaks included.
pub proof fn law_block_comments_are_passed(s: Seq<char>, p: int, e: int)
    requires
        0 <= p,
        p + 2 <= e,
        e + 2 <= s.len(),
        s[p] == '/' && s[p + 1] == '*',
        s[e] == '*' && s[e + 1] == '/',
        forall|i: int|
            p + 2 <= i < e ==> !(#[trigger] s[i] == '*' && s[i + 1] == '/') && !(s[i] == '/' && s[i
                + 1] == '*'),
    ensures
        tokens_from(s, p) == tokens_from(s, e + 2),
{
    lemma_comment_end(s, p + 2, e);
    assert(trivia_end(s, p) == trivia_end(s, e + 2));
}

/// Where neither a blank nor a comment stands, a token does: it comes first, on the
/// line it starts on, and the tokens behind it follow.
pub proof fn law_tokens_follow_each_other(s: Seq<char>, p: int)
    requires
        0 <= p < s.len(),
        s[p] != ' ' && s[p] != '\t' && s[p] != '\r' && s[p] != '\n',
        p + 1 < s.len() && s[p] == '/' ==> s[p + 1] != '/' && s[p + 1] != '*',
    ensures
        match token_at(s, p) {
            Err(e) => tokens_from(s, p) == Err::<Seq<SpannedView>, Seq<char>>(e),
            Ok((t, q)) => p < q <= s.len() && match tokens_from(s, q) {
                Err(e) => tokens_from(s, p) == Err::<Seq<SpannedView>, Seq<char>>(e),
                Ok(rest) => tokens_from(s, p) == Ok::<Seq<SpannedView>, Seq<char>>(
                    seq![SpannedView { tok: t, line: line_at(s, p) }] + rest,
                ),
            },
        },
{
    lemma_token_progress(s, p);
    assert(trivia_end(s, p) == Some(p));
}

/// The line of a position is one more than that of the position before it exactly
/// where a line break stands between them; the first line is line 1.
pub proof fn law_lines_count_line_breaks(s: Seq<char>, p: int)
    requires
        0 <= p < s.len(),
    ensures
        line_at(s, 0) == 1,
        line_at(s, p + 1) == line_at(s, p) + (if s[p] == '\n' {
            1int
        } else {
            0
        }),
{
}

// ── Texts ───────────────────────────────────────────────────────────────────

/// Whether a character stands for itself in a string literal.
pub open spec fn is_literal(c: char) -> bool {
    c != '"' && c != '\\' && c != '$'
}

proof fn lemma_literal_run(s: Seq<char>, p: int, e: int, parts: Seq<StrPartView>, cur: Seq<char>)
    requires
        0 <= p <= e <= s.len(),
        forall|i: int| p <= i < e ==> is_literal(#[trigger] s[i]),
    ensures
        string_rest(s, p, parts, cur) == string_rest(s, e, parts, cur + s.subrange(p, e)),
    decreases e - p,
{
    if p < e {
        lemma_literal_run(s, p + 1, e, parts, cur.push(s[p]));
        assert(cur.push(s[p]) + s.subrange(p + 1, e) =~= cur + s.subrange(p, e));
    } else {
        assert(cur + s.subrange(p, e) =~= cur);
    }
}

/// A string literal of characters that stand for themselves is its content.
pub proof fn law_plain_strings_are_their_content(s: Seq<char>, p: int, e: int)
    requires
        0 <= p < e < s.len(),
        s[p] == '"' && s[e] == '"',
        forall|i: int| p < i < e ==> is_literal(#[trigger] s[i]),
    ensures
        token_at(s, p) == Ok::<(TokView, int), Seq<char>>(
            (TokView::Str(seq![StrPartView::Text(s.subrange(p + 1, e))]), e + 1),
        ),
{
    let none: Seq<StrPartView> = Seq::empty();
    let no_text: Seq<char> = Seq::empty();
    lemma_literal_run(s, p + 1, e, none, no_text);
    assert(no_text + s.subrange(p + 1, e) =~= s.subrange(p + 1, e));
    assert(none.push(StrPartView::Text(s.subrange(p + 1, e))) =~= seq![
        StrPartView::Text(s.subrange(p + 1, e)),
    ]);
}

/// What the character behind a `\` stands for, in a string literal that is nothing
/// but that: a line break, a tab, a carriage return, NUL, or the character itself.
pub proof fn law_escapes_in_strings(c: char)
    ensures
        token_at(seq!['"', '\\', c, '"'], 0) == Ok::<(TokView, int), Seq<char>>(
            (
                TokView::Str(
                    seq![
                        StrPartView::Text(
                            seq![
                                match c {
                                    'n' => '\n',
                                    't' => '\t',
                                    'r' => '\r',
                                    '0' => '\0',
                                    _ => c,
                                },
                            ],
                        ),
                    ],
                ),
                4,
            ),
        ),
{
    let s = seq!['"', '\\', c, '"'];
    let none: Seq<StrPartView> = Seq::empty();
    let no_text: Seq<char> = Seq::empty();
    reveal_with_fuel(string_rest, 3);
    let e = match c {
        'n' => '\n',
        't' => '\t',
        'r' => '\r',
        '0' => '\0',
        _ => c,
    };
    assert(no_text.push(e) =~= seq![e]);
    assert(none.push(StrPartView::Text(seq![e])) =~= seq![StrPartView::Text(seq![e])]);
}

proof fn lemma_template_end(s: Seq<char>, p: int, e: int)
    requires
        0 <= p <= e < s.len(),
        s[e] == '}',
        forall|i: int| p <= i < e ==> #[trigger] s[i] != '{' && s[i] != '}',
    ensures
        crate::lexer::template_end(s, p, 1) == Some(e),
    decreases e - p,
{
    if p < e {
        lemma_template_end(s, p + 1, e);
    }
}

/// A `${…}` in a string literal is the expression between its braces.
pub proof fn law_templates_are_their_expression(s: Seq<char>, p: int, e: int)
    requires
        0 <= p,
        p + 3 <= e,
        e + 1 < s.len(),
        s[p] == '"' && s[p + 1] == '$' && s[p + 2] == '{',
        s[e] == '}' && s[e + 1] == '"',
        forall|i: int| p + 3 <= i < e ==> #[trigger] s[i] != '{' && s[i] != '}',
    ensures
        token_at(s, p) == Ok::<(TokView, int), Seq<char>>(
            (TokView::Str(seq![StrPartView::Expr(s.subrange(p + 3, e))]), e + 2),
        ),
{
    let none: Seq<StrPartView> = Seq::empty();
    lemma_template_end(s, p + 3, e);
    reveal_with_fuel(string_rest, 3);
    assert(none.push(StrPartView::Expr(s.subrange(p + 3, e))) =~= seq![
        StrPartView::Expr(s.subrange(p + 3, e)),
    ]);
}

/// A `$name` in a string literal is that name.
pub proof fn law_named_templates_are_their_name(s: Seq<char>, p: int, e: int)
    requires
        0 <= p,
        p + 2 < e < s.len(),
        s[p] == '"' && s[p + 1] == '$' && s[e] == '"',
        is_ident_start(s[p + 2]),
        forall|i: int| p + 2 <= i < e ==> is_ident_char(#[trigger] s[i]),
    ensures
        token_at(s, p) == Ok::<(TokView, int), Seq<char>>(
            (TokView::Str(seq![StrPartView::Expr(s.subrange(p + 2, e))]), e + 1),
        ),
{
    let none: Seq<StrPartView> = Seq::empty();
    lemma_ident_end_is(s, p + 2, e);
    reveal_with_fuel(string_rest, 3);
    assert(none.push(StrPartView::Expr(s.subrange(p + 2, e))) =~= seq![
        StrPartView::Expr(s.subrange(p + 2, e)),
    ]);
}

/// A character between single quotes is that character, by its code.
pub proof fn law_character_literals(s: Seq<char>, p: int)
    requires
        0 <= p,
        p + 2 < s.len(),
        s[p] == '\'' && s[p + 2] == '\'',
        s[p + 1] != '\\',
        s[p + 1] as int <= 0xffff,
    ensures
        token_at(s, p) == Ok::<(TokView, int), Seq<char>>(
            (TokView::Plain(Tok::Char(s[p + 1] as i64)), p + 3),
        ),
{
}

} // verus!
