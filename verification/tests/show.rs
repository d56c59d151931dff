use proc_debug::show::{show_macro_call, show_macro_output, Block};

fn strings(v: &[&str]) -> Vec<String> {
    v.iter().map(|s| s.to_string()).collect()
}

#[test]
fn function_call_is_shown_as_invocation() {
    let b = show_macro_call("krate::m", "answer", "src/lib.rs", 12, "function", &strings(&["1 , 2"]));
    assert_eq!(
        b,
        Block {
            header: "input of krate::m::answer (src/lib.rs:12)".to_string(),
            body: "  answer!{1 , 2}".to_string(),
        }
    );
}

#[test]
fn attribute_call_is_shown_above_its_item() {
    let b = show_macro_call(
        "m",
        "route",
        "a.rs",
        0,
        "attribute",
        &strings(&["GET , \"/\"", "fn index () { }\nfn other () { }", "ignored"]),
    );
    assert_eq!(b.header, "input of m::route (a.rs:0)");
    assert_eq!(
        b.body,
        "  #[route(GET , \"/\")]\n  fn index () { }\n  fn other () { }"
    );
}

#[test]
fn derive_call_is_shown_above_its_item() {
    let b = show_macro_call(
        "m",
        "derive_foo",
        "a.rs",
        100,
        "derive",
        &strings(&["Foo", "struct S ;"]),
    );
    assert_eq!(b.header, "input of m::derive_foo (a.rs:100)");
    assert_eq!(b.body, "  #[derive(Foo)]\n  struct S ;");
}

#[test]
fn output_is_indented_line_by_line() {
    let b = show_macro_output("m", "n", "f.rs", 7, "a\n\nb\n");
    assert_eq!(b.header, "output of m::n (f.rs:7)");
    assert_eq!(b.body, "  a\n  \n  b\n  ");
    assert_eq!(show_macro_output("", "", "", usize::MAX, "").body, "  ");
    assert_eq!(
        show_macro_output("", "", "", usize::MAX, "").header,
        format!("output of :: (:{})", usize::MAX)
    );
}

#[test]
fn call_of_unknown_kind_is_shown_by_its_inputs() {
    let b = show_macro_call("m", "n", "f.rs", 1, "unknown", &strings(&["a", "b\nc", ""]));
    assert_eq!(b.header, "input of m::n (f.rs:1)");
    assert_eq!(b.body, "  a,b\n  c,");
    assert_eq!(show_macro_call("m", "n", "f.rs", 1, "", &vec![]).body, "  ");
}
