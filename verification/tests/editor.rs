use kotlinrs::corpus::corpus;
use kotlinrs::throwable::throwable_fqn;
use kotlinrs::lsp::{
    completion_kind, completions, compute_diagnostics, hover, hover_word, is_blank, line_at,
    parse_error_line, request_method, word_at, Docs, Event, ItemKind, Method,
};

const BANNER: &str = "**kotlinrs** — Kotlin on the fusevm bytecode VM + Cranelift JIT.";

#[test]
fn the_corpus_is_complete() {
    let entries = corpus();
    assert_eq!(entries.len(), 287);
    assert_eq!(entries[0].name, "fun");
    for e in &entries {
        assert!(!e.name.is_empty());
        assert!(!e.chapter.is_empty());
        assert!(!e.signature.is_empty());
        assert!(!e.doc.is_empty());
    }
    let throwables: Vec<&str> =
        entries.iter().filter(|e| e.chapter == "Throwables").map(|e| e.name.as_str()).collect();
    assert_eq!(throwables.len(), 16);
    for name in throwables {
        assert!(throwable_fqn(name).is_some(), "{}", name);
    }
}

#[test]
fn every_entry_completes() {
    let items = completions();
    let entries = corpus();
    assert_eq!(items.len(), entries.len());
    for i in 0..items.len() {
        assert_eq!(items[i].label, entries[i].name);
        let first = entries[i].signature.lines().next().unwrap_or("");
        assert_eq!(items[i].detail, format!("{} — {}", first, entries[i].doc));
        assert_eq!(items[i].kind, completion_kind(entries[i].chapter.as_str()));
    }
}

#[test]
fn chapters_decide_the_kind() {
    assert_eq!(completion_kind("Types"), ItemKind::Class);
    assert_eq!(completion_kind("Operators"), ItemKind::Operator);
    assert_eq!(completion_kind("Built-in functions"), ItemKind::Function);
}

#[test]
fn a_known_word_shows_its_entry() {
    let e = &corpus()[0];
    let shown = hover_word("fun");
    assert!(shown.contains(e.signature.as_str()));
    assert!(shown.contains(e.doc.as_str()));
    assert_ne!(shown, BANNER);
}

#[test]
fn an_unknown_word_shows_the_banner() {
    assert_eq!(hover_word("zzz"), BANNER);
    assert_eq!(hover(Some("val zzz = 1"), 0, 5), BANNER);
    assert_eq!(hover(None, 0, 0), BANNER);
    assert_eq!(hover(Some("fun main()"), 0, 1), hover_word("fun"));
}

#[test]
fn a_line_is_found_by_its_number() {
    assert_eq!(line_at("a\nb\nc", 1), Some("b".to_string()));
    assert_eq!(line_at("a\nb\nc", 3), None);
    assert_eq!(line_at("a\r\nb", 0), Some("a".to_string()));
    assert_eq!(line_at("", 0), None);
}

#[test]
fn a_word_is_the_longest_run_at_the_place() {
    assert_eq!(word_at("val abc = 1", 0, 4), Some("abc".to_string()));
    assert_eq!(word_at("val abc = 1", 0, 5), Some("abc".to_string()));
    assert_eq!(word_at("val abc = 1", 0, 7), Some("abc".to_string()));
    assert_eq!(word_at("val abc = 1", 0, 8), None);
    assert_eq!(word_at("val abc = 1", 9, 0), None);
}

#[test]
fn blank_texts_are_not_diagnosed() {
    assert!(is_blank(" \t\n"));
    assert!(!is_blank(" x"));
    assert!(compute_diagnostics("  \n", None).is_none());
}

#[test]
fn an_error_line_is_read_from_the_message() {
    assert_eq!(parse_error_line("expected `)` (line 3)"), 3);
    assert_eq!(parse_error_line("(line 3) seen at (line 12)"), 12);
    assert_eq!(parse_error_line("no line here"), 1);
    assert_eq!(parse_error_line("(line 99999999999)"), 1);
}

#[test]
fn diagnostics_report_the_parser() {
    let d = compute_diagnostics("fun main() {\n", Some("expected `}` (line 2)".to_string()));
    match d {
        Some(d) => {
            assert_eq!(d.line, 1);
            assert_eq!(d.message, "expected `}` (line 2)");
        }
        None => panic!("a diagnostic is owed"),
    }
    // A bare snippet is wrapped, which moves its lines down by one.
    match compute_diagnostics("val x =", Some("expected an expression (line 2)".to_string())) {
        Some(d) => assert_eq!(d.line, 0),
        None => panic!("a diagnostic is owed"),
    }
    assert!(compute_diagnostics("fun main() {}", None).is_none());
}

#[test]
fn documents_follow_the_events() {
    let mut docs = Docs::new();
    let uri = "file:///a.kt".to_string();
    assert_eq!(docs.apply(&Event::Opened(uri.clone(), "one".to_string())), Some("one".to_string()));
    assert_eq!(docs.text("file:///a.kt"), Some("one"));
    assert_eq!(
        docs.apply(&Event::Changed(uri.clone(), vec!["two".to_string(), "three".to_string()])),
        Some("three".to_string())
    );
    assert_eq!(docs.text("file:///a.kt"), Some("three"));
    assert_eq!(docs.text("file:///b.kt"), None);
    docs.apply(&Event::Closed(uri));
    assert_eq!(docs.text("file:///a.kt"), None);
}

#[test]
fn requests_are_told_apart() {
    assert_eq!(request_method("textDocument/completion"), Method::Completion);
    assert_eq!(request_method("textDocument/hover"), Method::Hover);
    assert_eq!(request_method("textDocument/definition"), Method::Unhandled);
}
