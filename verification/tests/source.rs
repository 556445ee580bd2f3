use kotlinrs::lexer::{digit_of, has_room_for_lines, Lexer};
use kotlinrs::token::{Spanned, StrPart, Tok};
use kotlinrs::{has_main, prepare_source, version_banner};

fn lex(src: &str) -> Result<Vec<Spanned>, String> {
    Lexer::new(src).tokenize()
}

fn kinds(src: &str) -> Vec<Tok> {
    match lex(src) {
        Ok(toks) => toks.into_iter().map(|t| t.tok).collect(),
        Err(e) => panic!("{}", e),
    }
}

fn lines(src: &str) -> Vec<u32> {
    match lex(src) {
        Ok(toks) => toks.iter().map(|t| t.line).collect(),
        Err(e) => panic!("{}", e),
    }
}

fn name(s: &str) -> Tok {
    Tok::Ident(s.to_string())
}

fn text(s: &str) -> StrPart {
    StrPart::Text(s.to_string())
}

fn expr(s: &str) -> StrPart {
    StrPart::Expr(s.to_string())
}

#[test]
fn banner_names_the_version() {
    assert_eq!(version_banner(), "kotlinrs 0.1.0 — Kotlin on fusevm (compiled, no JVM)");
}

#[test]
fn a_program_lexes_to_its_tokens() {
    assert_eq!(
        kinds("fun main() { val x = 1 + 2 }"),
        vec![
            Tok::Fun,
            name("main"),
            Tok::LParen,
            Tok::RParen,
            Tok::LBrace,
            Tok::Val,
            name("x"),
            Tok::Assign,
            Tok::Int(1),
            Tok::Plus,
            Tok::Int(2),
            Tok::RBrace,
            Tok::Eof,
        ]
    );
}

#[test]
fn keywords_are_not_names() {
    assert_eq!(
        kinds("if else while for in return until downTo step when is break continue null var"),
        vec![
            Tok::If,
            Tok::Else,
            Tok::While,
            Tok::For,
            Tok::In,
            Tok::Return,
            Tok::Until,
            Tok::DownTo,
            Tok::Step,
            Tok::When,
            Tok::Is,
            Tok::Break,
            Tok::Continue,
            Tok::Null,
            Tok::Var,
            Tok::Eof,
        ]
    );
    assert_eq!(kinds("true false funny"), vec![Tok::Bool(true), Tok::Bool(false), name("funny"), Tok::Eof]);
}

#[test]
fn operators_take_the_longest_form() {
    assert_eq!(
        kinds("+= -= *= /= %= == != <= >= && || -> .. < > ! = @ ? : ; , ."),
        vec![
            Tok::PlusEq,
            Tok::MinusEq,
            Tok::StarEq,
            Tok::SlashEq,
            Tok::PercentEq,
            Tok::EqEq,
            Tok::NotEq,
            Tok::Le,
            Tok::Ge,
            Tok::AndAnd,
            Tok::OrOr,
            Tok::Arrow,
            Tok::DotDot,
            Tok::Lt,
            Tok::Gt,
            Tok::Not,
            Tok::Assign,
            Tok::At,
            Tok::Question,
            Tok::Colon,
            Tok::Semi,
            Tok::Comma,
            Tok::Dot,
            Tok::Eof,
        ]
    );
}

#[test]
fn integer_literals_in_three_bases() {
    assert_eq!(
        kinds("1_000 0xFF 0b1010 0xF_F 9223372036854775807 0"),
        vec![
            Tok::Int(1000),
            Tok::Int(255),
            Tok::Int(10),
            Tok::Int(255),
            Tok::Int(i64::MAX),
            Tok::Int(0),
            Tok::Eof,
        ]
    );
}

#[test]
fn a_number_out_of_range_reads_as_zero() {
    assert_eq!(kinds("9223372036854775808"), vec![Tok::Int(0), Tok::Eof]);
}

#[test]
fn fractions_are_floating_point() {
    assert_eq!(kinds("1.5"), vec![Tok::Float("1.5".to_string()), Tok::Eof]);
    assert_eq!(kinds("1..5"), vec![Tok::Int(1), Tok::DotDot, Tok::Int(5), Tok::Eof]);
    assert_eq!(kinds("1.plus"), vec![Tok::Int(1), Tok::Dot, name("plus"), Tok::Eof]);
}

#[test]
fn templates_are_split_out() {
    assert_eq!(
        kinds("\"a $x b ${y + 1} c\""),
        vec![Tok::Str(vec![text("a "), expr("x"), text(" b "), expr("y + 1"), text(" c")]), Tok::Eof]
    );
    assert_eq!(kinds("\"${f { 1 }}\""), vec![Tok::Str(vec![expr("f { 1 }")]), Tok::Eof]);
    assert_eq!(kinds("\"cost: $\""), vec![Tok::Str(vec![text("cost: "), text("$")]), Tok::Eof]);
}

#[test]
fn string_escapes() {
    assert_eq!(kinds("\"\\n\\t\\\\\\\"\\$x\""), vec![Tok::Str(vec![text("\n\t\\\"$x")]), Tok::Eof]);
}

#[test]
fn string_literals_hold_characters_not_bytes() {
    assert_eq!(kinds("\"café\""), vec![Tok::Str(vec![text("café")]), Tok::Eof]);
}

#[test]
fn square_brackets_are_tokens() {
    assert_eq!(
        kinds("a[1]"),
        vec![name("a"), Tok::LBracket, Tok::Int(1), Tok::RBracket, Tok::Eof]
    );
    assert!(has_main("fun main() { println(\"abc\"[1]) }"));
    assert_eq!(
        prepare_source("fun main() { println(\"abc\"[1]) }"),
        "fun main() { println(\"abc\"[1]) }"
    );
}

#[test]
fn a_dollar_before_a_digit_is_text() {
    assert_eq!(kinds("\"$5\""), vec![Tok::Str(vec![text("$5")]), Tok::Eof]);
    assert_eq!(kinds("\"$a5\""), vec![Tok::Str(vec![expr("a5")]), Tok::Eof]);
    assert_eq!(kinds("\"$\""), vec![Tok::Str(vec![text("$")]), Tok::Eof]);
}

#[test]
fn char_literals_are_one_code_unit() {
    assert!(lex("'\u{1F600}'").is_err());
    assert_eq!(kinds("'\u{FFFD}'"), vec![Tok::Char(0xFFFD), Tok::Eof]);
}

#[test]
fn texts_on_lines_of_their_own_keep_their_tokens() {
    let (a, b) = ("val x = 1 // one\n", "println(\"$x\")");
    let joined = format!("{}\n{}", a, b);
    let mut expected = kinds(a);
    expected.pop();
    expected.append(&mut kinds(b));
    assert_eq!(kinds(&joined), expected);
    assert_eq!(lines(&joined), vec![1, 1, 1, 1, 3, 3, 3, 3, 3]);
}

#[test]
fn char_literals() {
    assert_eq!(
        kinds("'A' '\\n' '\\u0041'"),
        vec![Tok::Char(65), Tok::Char(10), Tok::Char(65), Tok::Eof]
    );
}

#[test]
fn unterminated_literals_are_refused() {
    assert!(lex("\"abc").is_err());
    assert!(lex("/* abc").is_err());
    assert!(lex("'a").is_err());
    assert!(lex("\"${x\"").is_err());
}

#[test]
fn stray_characters_are_refused() {
    assert!(lex("val x = #").is_err());
}

#[test]
fn comments_nest_and_are_skipped() {
    assert_eq!(kinds("a /* x /* y */ z */ b // c\n"), vec![name("a"), name("b"), Tok::Eof]);
}

#[test]
fn the_end_marker_is_last() {
    for src in ["", "a", "a\nb\n", "\"x\"", "/* c */"] {
        let toks = kinds(src);
        assert_eq!(toks.iter().position(|t| *t == Tok::Eof), Some(toks.len() - 1));
    }
}

#[test]
fn lines_never_go_back() {
    let ls = lines("a\n\nb /* \n */ c\n\"s\"\n");
    assert_eq!(ls, vec![1, 3, 4, 5, 6]);
    for i in 1..ls.len() {
        assert!(ls[i - 1] <= ls[i]);
    }
}

#[test]
fn digits_have_their_value() {
    assert_eq!(digit_of('0'), 0);
    assert_eq!(digit_of('9'), 9);
    assert_eq!(digit_of('a'), 10);
    assert_eq!(digit_of('F'), 15);
    assert_eq!(digit_of('z'), 35);
    assert_eq!(digit_of('-'), 36);
}

#[test]
fn main_is_a_declaration_not_a_word() {
    assert!(has_main("fun main() {}"));
    assert!(has_main("fun\nmain ( args : X ) {}"));
    assert!(!has_main("println(\"fun main\")"));
    assert!(!has_main("// fun main\n"));
    assert!(!has_main("fun domain() {}"));
    assert!(!has_main(""));
    assert!(!has_main("fun main \""));
}

#[test]
fn a_snippet_becomes_a_main_body() {
    assert_eq!(prepare_source("println(1)"), "fun main() {\nprintln(1)\n}\n");
    assert_eq!(prepare_source("fun main() {}"), "fun main() {}");
}

#[test]
fn preparing_twice_changes_nothing() {
    for src in ["println(1)", "fun main() {}", "", "val x = 1 // done"] {
        let once = prepare_source(src);
        assert_eq!(prepare_source(once.as_str()), once);
    }
}

#[test]
fn wrapping_keeps_the_tokens() {
    let inner = kinds("val x = \"a$b\"");
    let wrapped = kinds(prepare_source("val x = \"a$b\"").as_str());
    assert_eq!(wrapped.len(), inner.len() + 6);
    assert_eq!(wrapped[0], Tok::Fun);
    assert_eq!(wrapped[5..5 + inner.len() - 1], inner[0..inner.len() - 1]);
    assert_eq!(wrapped[wrapped.len() - 2], Tok::RBrace);
}

#[test]
fn a_source_is_measured_by_its_lines() {
    assert!(has_room_for_lines(""));
    assert!(has_room_for_lines("fun main() {\n}\n"));
    assert!(has_room_for_lines(&"x ".repeat(100_000)));
    assert!(has_room_for_lines(&"\n".repeat(100_000)));
}
