use proc_debug::entry::{Entry, MacroKind};
use proc_debug::filter::ProcDebugArgs;

fn entry() -> Entry {
    Entry::new(
        "build",
        "a.rs",
        3,
        "crate::m",
        "derive",
        "Foo",
        vec!["Foo".to_string(), "struct S;".to_string()],
    )
}

fn strings(v: &[&str]) -> Vec<String> {
    v.iter().map(|s| s.to_string()).collect()
}

#[test]
fn exact_path_passes() {
    let mut q = ProcDebugArgs::new();
    q.path = strings(&["crate::m::Foo"]);
    assert!(entry().check_filter(&q, 1));
}

#[test]
fn other_path_fails() {
    let mut q = ProcDebugArgs::new();
    q.path = strings(&["crate::m::Bar"]);
    assert!(!entry().check_filter(&q, 1));
}

#[test]
fn match_all_passes_whatever_else() {
    let mut q = ProcDebugArgs::new();
    q.all = true;
    assert!(entry().check_filter(&q, 1));
    assert!(entry().check_filter(&q, usize::MAX));
    q.not = strings(&["build", "Foo"]);
    q.path = strings(&["nothing"]);
    assert!(entry().check_filter(&q, 7));
}

#[test]
fn empty_query_shows_nothing() {
    let q = ProcDebugArgs::new();
    assert!(!entry().check_filter(&q, 1));
    let mut only_not = ProcDebugArgs::new();
    only_not.not = strings(&["zzz"]);
    assert!(!entry().check_filter(&only_not, 1));
}

#[test]
fn count_limit_comes_first() {
    let mut q = ProcDebugArgs::new();
    q.all = true;
    q.count = Some(2);
    assert!(entry().check_filter(&q, 1));
    assert!(entry().check_filter(&q, 2));
    assert!(!entry().check_filter(&q, 3));
    q.count = Some(0);
    assert!(!entry().check_filter(&q, 1));
}

#[test]
fn exclusion_beats_path_and_terms() {
    let mut q = ProcDebugArgs::new();
    q.path = strings(&["crate::m::Foo"]);
    q.queries = strings(&["Foo"]);
    for hit in ["uil", "a.r", "e::m", "Fo", ""] {
        q.not = strings(&["nope", hit]);
        assert!(!entry().check_filter(&q, 1), "{:?}", hit);
    }
    q.not = strings(&["nope", "foo"]);
    assert!(entry().check_filter(&q, 1));
}

#[test]
fn paths_match_on_segment_boundaries() {
    for (path, want) in [
        ("crate", true),
        ("crate::m", true),
        ("Foo", true),
        ("m::Foo", true),
        ("crate::m::Foo", true),
        ("cra", false),
        ("crate::", false),
        ("oo", false),
        ("::Foo", false),
        ("rate::m::Foo", false),
        ("m", false),
        ("", false),
    ] {
        let mut q = ProcDebugArgs::new();
        q.path = strings(&["unrelated", path]);
        assert_eq!(entry().check_filter(&q, 1), want, "{:?}", path);
    }
}

#[test]
fn free_text_terms_search_four_fields() {
    for (term, want) in [
        ("buil", true),
        (".rs", true),
        ("te::", true),
        ("oo", true),
        ("", true),
        ("struct", false),
        ("crate::m::Foo", false),
        ("Derive", false),
    ] {
        let mut q = ProcDebugArgs::new();
        q.queries = strings(&["zzz", term]);
        assert_eq!(entry().check_filter(&q, 1), want, "{:?}", term);
    }
}

#[test]
fn cut_depth_follows_verbose_then_depth() {
    let mut q = ProcDebugArgs::new();
    assert_eq!(q.cut_depth(), 4);
    q.depth = Some(0);
    assert_eq!(q.cut_depth(), 0);
    q.depth = Some(9);
    assert_eq!(q.cut_depth(), 9);
    q.verbose = true;
    assert_eq!(q.cut_depth(), usize::MAX);
}

#[test]
fn kinds_are_read_from_their_names() {
    assert_eq!(MacroKind::from_str("function"), Ok(MacroKind::Function));
    assert_eq!(MacroKind::from_str("attribute"), Ok(MacroKind::Attribute));
    assert_eq!(MacroKind::from_str("derive"), Ok(MacroKind::Derive));
    assert_eq!(MacroKind::from_str("unknown"), Err("Bad name"));
    assert_eq!(MacroKind::from_str(""), Err("Bad name"));
    assert_eq!(MacroKind::from_str("Function"), Err("Bad name"));
    for k in [MacroKind::Function, MacroKind::Attribute, MacroKind::Derive] {
        assert_eq!(MacroKind::from_str(k.name()), Ok(k));
    }
    assert_eq!(MacroKind::Function.arity(), 1);
    assert_eq!(MacroKind::Attribute.arity(), 2);
    assert_eq!(MacroKind::Derive.arity(), 2);
}

#[test]
fn entry_can_be_shown_with_a_known_kind_and_its_inputs() {
    let e = |kind: &str, inputs: &[&str]| Entry::new("l", "f", 1, "m", kind, "n", strings(inputs));
    assert!(!e("function", &[]).is_well_formed());
    assert!(e("function", &["x"]).is_well_formed());
    assert!(!e("attribute", &["x"]).is_well_formed());
    assert!(e("attribute", &["x", "y"]).is_well_formed());
    assert!(!e("derive", &["x"]).is_well_formed());
    assert!(e("derive", &["x", "y", "z"]).is_well_formed());
    assert!(!e("unknown", &["x", "y", "z"]).is_well_formed());
    assert_eq!(e("derive", &[]).known_kind(), Some(MacroKind::Derive));
    assert_eq!(e("Derive", &[]).known_kind(), None);
    let e = e("derive", &["x", "y", "z"]);
    assert_eq!(e.label, "l");
    assert_eq!(e.file, "f");
    assert_eq!(e.line, 1);
    assert_eq!(e.modpath, "m");
    assert_eq!(e.macro_kind, "derive");
    assert_eq!(e.macro_name, "n");
    assert_eq!(e.macro_inputs, strings(&["x", "y", "z"]));
}
