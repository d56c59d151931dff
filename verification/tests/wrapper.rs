use proc_debug::classify::Category;
use proc_debug::entry::Entry;
use proc_debug::filter::ProcDebugArgs;
use proc_debug::token::{Delimiter, Token};
use proc_debug::wrapper::{present, proc_wrapper, Counter};
use std::cell::Cell;

fn id(name: &str) -> Token {
    Token::Ident { name: name.to_string(), pos: 0 }
}

fn p(ch: char) -> Token {
    Token::Punct { ch, joint: false, pos: 0 }
}

fn lit(text: &str) -> Token {
    Token::Literal { text: text.to_string(), pos: 0 }
}

fn answer_entry() -> Entry {
    Entry::new(
        "krate::answer",
        "src/lib.rs",
        5,
        "krate",
        "function",
        "answer",
        vec!["".to_string()],
    )
}

fn all() -> ProcDebugArgs {
    let mut q = ProcDebugArgs::new();
    q.all = true;
    q
}

#[test]
fn numbers_run_from_one_without_gaps() {
    let mut c = Counter::new();
    assert!(!c.exhausted());
    let got: Vec<usize> = (0..100).map(|_| c.count()).collect();
    let want: Vec<usize> = (1..=100).collect();
    assert_eq!(got, want);
}

#[test]
fn without_a_query_the_wrapper_is_transparent() {
    let mut c = Counter::new();
    let ran = Cell::new(0);
    let out = proc_wrapper(&mut c, None, &answer_entry(), || {
        ran.set(ran.get() + 1);
        vec![lit("42")]
    });
    assert_eq!(ran.get(), 1);
    assert_eq!(out.number, 1);
    assert_eq!(out.raw, vec![lit("42")]);
    assert_eq!(out.shown, None);
    let again = proc_wrapper(&mut c, None, &answer_entry(), || vec![]);
    assert_eq!(again.number, 2);
    assert_eq!(again.raw, vec![]);
    assert_eq!(again.shown, None);
}

#[test]
fn a_call_that_fails_the_query_is_left_alone_but_still_runs() {
    let mut c = Counter::new();
    let q = ProcDebugArgs::new();
    let ran = Cell::new(false);
    let out = proc_wrapper(&mut c, Some(&q), &answer_entry(), || {
        ran.set(true);
        vec![lit("42")]
    });
    assert!(ran.get());
    assert_eq!(out.raw, vec![lit("42")]);
    assert_eq!(out.shown, None);
}

#[test]
fn a_call_that_passes_is_shown_and_re_emitted() {
    let mut c = Counter::new();
    let q = all();
    let out = proc_wrapper(&mut c, Some(&q), &answer_entry(), || vec![lit("42")]);
    assert_eq!(out.number, 1);
    assert_eq!(out.raw, vec![lit("42")]);
    let shown = out.shown.unwrap();
    assert_eq!(shown.input.header, "input of krate::answer (src/lib.rs:5)");
    assert_eq!(shown.input.body, "  answer!{}");
    assert_eq!(shown.output.header, "output of krate::answer (src/lib.rs:5)");
    assert_eq!(shown.output.body, "  42");
    assert_eq!(shown.category, Category::Other);
    assert_eq!(shown.emitted, "42");
}

#[test]
fn the_count_limit_looks_at_the_number_of_the_call() {
    let mut c = Counter::new();
    let mut q = all();
    q.count = Some(2);
    let shown: Vec<bool> = (0..4)
        .map(|_| proc_wrapper(&mut c, Some(&q), &answer_entry(), || vec![lit("1")]).shown.is_some())
        .collect();
    assert_eq!(shown, vec![true, true, false, false]);
}

#[test]
fn output_is_cut_for_display_but_emitted_whole() {
    let body = vec![
        id("let"),
        id("a"),
        p('='),
        lit("1"),
        p(';'),
        id("let"),
        id("b"),
        p('='),
        lit("2"),
        p(';'),
        id("a"),
    ];
    let tokens = || {
        vec![Token::Group {
            delimiter: Delimiter::Brace,
            stream: proc_debug::token::duplicate_stream(&body),
        }]
    };
    let mut q = all();
    q.depth = Some(2);
    let shown = present(&answer_entry(), &q, &tokens());
    assert_eq!(shown.output.body, "  { let a = 1 ; ... }");
    assert_eq!(shown.category, Category::Stmt);
    let bare: String = shown.emitted.chars().filter(|c| !c.is_whitespace()).collect();
    assert_eq!(bare, "{leta=1;letb=2;a}");
    q.depth = Some(0);
    assert_eq!(present(&answer_entry(), &q, &tokens()).output.body, "  ...");
    q.verbose = true;
    assert_eq!(
        present(&answer_entry(), &q, &tokens()).output.body,
        "  { let a = 1 ; let b = 2 ; a }"
    );
}

#[test]
fn a_call_that_cannot_be_shown_passes_through_when_it_is_not_asked_for() {
    let mut c = Counter::new();
    let unknown = Entry::new("l", "f.rs", 1, "m", "unknown", "n", vec![]);
    let bare = Entry::new("l", "f.rs", 1, "m", "function", "n", vec![]);
    let out = proc_wrapper(&mut c, None, &unknown, || vec![lit("1")]);
    assert_eq!((out.number, out.raw, out.shown), (1, vec![lit("1")], None));
    let out = proc_wrapper(&mut c, None, &bare, || vec![lit("2")]);
    assert_eq!((out.number, out.raw, out.shown), (2, vec![lit("2")], None));
    let q = ProcDebugArgs::new();
    let out = proc_wrapper(&mut c, Some(&q), &unknown, || vec![lit("3")]);
    assert_eq!((out.number, out.raw, out.shown), (3, vec![lit("3")], None));
    let mut limited = all();
    limited.count = Some(3);
    let out = proc_wrapper(&mut c, Some(&limited), &bare, || vec![lit("4")]);
    assert_eq!((out.number, out.raw, out.shown), (4, vec![lit("4")], None));
}

#[test]
fn a_counter_can_be_resumed() {
    let mut c = Counter::resume(41);
    assert_eq!(c.issued(), 41);
    assert_eq!(c.count(), 42);
    assert_eq!(c.issued(), 42);
    assert!(Counter::resume(usize::MAX).exhausted());
    assert_eq!(Counter::new().issued(), 0);
}
