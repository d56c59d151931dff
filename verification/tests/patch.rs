use proc_debug::patch::{
    backup_name, depends_on_support, insert_wrappers, modify_rust_file, modify_stripped,
    modify_toml_file, remove_comments, ModifyError,
};

#[test]
fn manifest_gets_dependency_once() {
    let out = modify_toml_file("[package]\nname = \"x\"".to_string(), "/tmp/lib");
    assert_eq!(
        out,
        "[package]\nname = \"x\"\n\n[dependencies.proc-debug]\npath = \"/tmp/lib\""
    );
    let again = modify_toml_file(out.clone(), "/elsewhere");
    assert_eq!(again, out);
}

#[test]
fn wrapper_goes_before_each_marker() {
    let src = "use a;\n#[proc_macro]\npub fn f() {}\n  #[proc_macro_derive(Foo)]\nfn g() {}\n#[proc_macro_attribute]\nfn h() {}\n";
    let out = insert_wrappers(src);
    assert_eq!(
        out,
        "use a;\n#[::proc_debug::proc_debug]\n#[proc_macro]\npub fn f() {}\n  #[::proc_debug::proc_debug]\n#[proc_macro_derive(Foo)]\nfn g() {}\n#[::proc_debug::proc_debug]\n#[proc_macro_attribute]\nfn h() {}\n"
    );
}

#[test]
fn source_without_markers_is_unchanged() {
    assert_eq!(insert_wrappers("fn main() {}\n"), "fn main() {}\n");
    assert_eq!(insert_wrappers(""), "");
}

#[test]
fn comments_are_stripped_before_markers_are_sought() {
    let out = modify_rust_file("// #[proc_macro]\n#[proc_macro]\nfn f() {}".to_string()).unwrap();
    assert_eq!(out, "\n#[::proc_debug::proc_debug]\n#[proc_macro]\nfn f() {}");
}

#[test]
fn source_with_any_characters_is_rewritten() {
    assert_eq!(
        modify_rust_file("#[proc_macro]\nfn f() { \"é\" }".to_string()),
        Ok("#[::proc_debug::proc_debug]\n#[proc_macro]\nfn f() { \"é\" }".to_string())
    );
    assert_eq!(
        modify_rust_file("/* é ü */ #[proc_macro] // 日本語\nfn ß() {} /* ü */".to_string()),
        Ok(" #[::proc_debug::proc_debug]\n#[proc_macro] \nfn ß() {} ".to_string())
    );
    assert_eq!(ModifyError::CannotRemoveComment.message(), "Cannot remove comment");
}

#[test]
fn comments_are_removed_by_their_ranges() {
    let text = "aébcdéf";
    assert_eq!(remove_comments(text, Some(vec![])), Some(text.to_string()));
    assert_eq!(remove_comments(text, Some(vec![(1, 3)])), Some("acdéf".to_string()));
    assert_eq!(
        remove_comments(text, Some(vec![(0, 1), (1, 2), (5, 7)])),
        Some("bcd".to_string())
    );
    assert_eq!(remove_comments(text, Some(vec![(2, 2), (6, 7)])), Some("aébcdé".to_string()));
    assert_eq!(remove_comments(text, None), None);
    assert_eq!(remove_comments("", Some(vec![])), Some(String::new()));
}

#[test]
fn ranges_out_of_order_or_out_of_the_text_are_refused() {
    let text = "abcdef";
    for bad in [
        vec![(3, 2)],
        vec![(0, 7)],
        vec![(6, 6)],
        vec![(7, 8)],
        vec![(2, 4), (3, 5)],
        vec![(4, 5), (1, 2)],
    ] {
        assert_eq!(remove_comments(text, Some(bad.clone())), None, "{:?}", bad);
    }
    assert_eq!(remove_comments("", Some(vec![(0, 0)])), None);
}

#[test]
fn backup_is_a_sibling_with_the_suffix() {
    assert_eq!(backup_name("lib.rs"), "lib.rs.proc-debug-bak");
}

#[test]
fn source_whose_comments_cannot_be_stripped_is_refused() {
    assert_eq!(modify_stripped(None), Err(ModifyError::CannotRemoveComment));
    assert_eq!(
        modify_stripped(Some("#[proc_macro_attribute]".to_string())),
        Ok("#[::proc_debug::proc_debug]\n#[proc_macro_attribute]".to_string())
    );
}

#[test]
fn markers_in_comments_are_not_wrapped_but_those_in_strings_are_text() {
    let out = modify_rust_file("/* #[proc_macro_derive(X)] */ fn f() { \"// kept\" }".to_string());
    assert_eq!(out, Ok(" fn f() { \"// kept\" }".to_string()));
}

#[test]
fn manifest_that_only_mentions_the_name_gets_the_dependency() {
    let toml = "[package]\nname = \"proc-debug-demo\"".to_string();
    assert_eq!(
        modify_toml_file(toml.clone(), "/opt/pd"),
        toml.clone() + "\n\n[dependencies.proc-debug]\npath = \"/opt/pd\""
    );
    assert_eq!(
        modify_toml_file(String::new(), ""),
        "\n\n[dependencies.proc-debug]\npath = \"\""
    );
    for text in [
        "",
        "# proc-debug = \"1\"",
        "[dev-dependencies]\nproc-debug = \"1\"",
        "[dependencies]\nproc-debug-extras = \"1\"",
        "[dependencies]\nproc-debugger = \"1\"",
        "[dependencies]\nx = 1\n[features]\nproc-debug = []",
        "proc-debug = \"1\"\n[dependencies]",
        "[dependencies.proc-debug-macro]\nversion = \"1\"",
        "[dependencies]\nproc-debug",
        "description = \"[dependencies.proc-debug]\"",
    ] {
        assert!(!depends_on_support(text), "{:?}", text);
    }
}

#[test]
fn manifest_that_declares_the_dependency_is_left_alone() {
    for text in [
        "[dependencies.proc-debug]\npath = \"x\"",
        "[package]\n\n  [dependencies.proc-debug] # local\nversion = \"1\"",
        "[dependencies]\nproc-debug = \"1\"",
        "[dependencies]\r\n\tproc-debug={ path = \"x\" }\r\n",
        "[dependencies]\nsyn = \"2\"\n\nproc-debug.path = \"x\"\n[features]",
        "[dependencies] # all of them\nproc-debug   = \"1\"",
    ] {
        assert!(depends_on_support(text), "{:?}", text);
        assert_eq!(modify_toml_file(text.to_string(), "/lib"), text);
    }
}
