use proc_debug::attrs::{argument_name, check_macro_kind, declaration, Attribute, Meta, Shape};
use proc_debug::entry::MacroKind;
use proc_debug::token::{Delimiter, Token};

fn id(name: &str) -> Token {
    Token::Ident { name: name.to_string(), pos: 0 }
}

fn path(name: &str) -> Attribute {
    Attribute { path: Some(name.to_string()), meta: Meta::Path }
}

fn list(name: &str, tokens: Vec<Token>) -> Attribute {
    Attribute { path: Some(name.to_string()), meta: Meta::List(tokens) }
}

fn value(name: &str) -> Attribute {
    Attribute { path: Some(name.to_string()), meta: Meta::NameValue }
}

#[test]
fn function_and_attribute_macros_are_declared_by_a_bare_path() {
    assert_eq!(
        check_macro_kind(&vec![value("doc"), path("proc_macro")]),
        Some((MacroKind::Function, None))
    );
    assert_eq!(
        check_macro_kind(&vec![path("inline"), path("proc_macro_attribute"), path("proc_macro")]),
        Some((MacroKind::Attribute, None))
    );
}

#[test]
fn derive_is_declared_by_a_list_of_one_name() {
    assert_eq!(
        check_macro_kind(&vec![list("proc_macro_derive", vec![id("Foo")])]),
        Some((MacroKind::Derive, Some("Foo".to_string())))
    );
}

#[test]
fn derive_with_helper_attributes_is_named_by_its_first_identifier() {
    let tokens = vec![
        id("Foo"),
        Token::Punct { ch: ',', joint: false, pos: 0 },
        id("attributes"),
        Token::Group { delimiter: Delimiter::Parenthesis, stream: vec![id("bar")] },
    ];
    assert_eq!(
        check_macro_kind(&vec![list("proc_macro_derive", tokens)]),
        Some((MacroKind::Derive, Some("Foo".to_string())))
    );
}

#[test]
fn derive_without_a_name_declares_nothing() {
    assert_eq!(check_macro_kind(&vec![list("proc_macro_derive", vec![])]), None);
    let tokens = vec![Token::Punct { ch: ',', joint: false, pos: 0 }, id("Foo")];
    assert_eq!(check_macro_kind(&vec![list("proc_macro_derive", tokens)]), None);
    let group = vec![Token::Group { delimiter: Delimiter::Parenthesis, stream: vec![id("Foo")] }];
    assert_eq!(
        check_macro_kind(&vec![list("proc_macro_derive", group), path("proc_macro")]),
        Some((MacroKind::Function, None))
    );
}

#[test]
fn other_shapes_and_paths_declare_nothing() {
    assert_eq!(check_macro_kind(&vec![]), None);
    assert_eq!(
        check_macro_kind(&vec![
            list("proc_macro", vec![]),
            list("proc_macro_attribute", vec![id("x")]),
            path("proc_macro_derive"),
            value("proc_macro"),
            path("proc_macro_error"),
            Attribute { path: None, meta: Meta::Path },
            list("derive", vec![id("Foo")]),
        ]),
        None
    );
}

#[test]
fn declaration_goes_by_path_shape_and_name() {
    assert_eq!(
        declaration(Some("proc_macro"), Shape::Path, None),
        Some((MacroKind::Function, None))
    );
    assert_eq!(
        declaration(Some("proc_macro"), Shape::Path, Some("x".to_string())),
        Some((MacroKind::Function, None))
    );
    assert_eq!(
        declaration(Some("proc_macro_attribute"), Shape::Path, None),
        Some((MacroKind::Attribute, None))
    );
    assert_eq!(
        declaration(Some("proc_macro_derive"), Shape::List, Some("D".to_string())),
        Some((MacroKind::Derive, Some("D".to_string())))
    );
    assert_eq!(declaration(Some("proc_macro_derive"), Shape::List, None), None);
    assert_eq!(declaration(Some("proc_macro_derive"), Shape::Path, Some("D".to_string())), None);
    assert_eq!(declaration(Some("proc_macro"), Shape::List, Some("D".to_string())), None);
    assert_eq!(declaration(Some("proc_macro"), Shape::NameValue, None), None);
    assert_eq!(declaration(None, Shape::Path, None), None);
}

#[test]
fn outer_attributes_stay_on_the_wrapper() {
    for name in ["proc_macro", "proc_macro_attribute", "proc_macro_derive", "proc_macro_error", "doc"] {
        assert!(path(name).is_outer(), "{}", name);
        assert!(list(name, vec![]).is_outer(), "{}", name);
        assert!(value(name).is_outer(), "{}", name);
    }
    for name in ["inline", "allow", "docs", "proc_macro_", ""] {
        assert!(!path(name).is_outer(), "{}", name);
    }
    assert!(!Attribute { path: None, meta: Meta::Path }.is_outer());
}

#[test]
fn parameters_without_a_name_get_one_from_their_index() {
    assert_eq!(argument_name(0, Some("input")), "input");
    assert_eq!(argument_name(1, Some("_")), "__proc_debug_arg_1");
    assert_eq!(argument_name(12, None), "__proc_debug_arg_12");
    assert_eq!(argument_name(0, Some("_x")), "_x");
}
