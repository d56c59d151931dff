//! What the attributes and the parameters of a macro definition say about
//! how to wrap it.

use vstd::prelude::*;
use crate::classify::opt_text;
use crate::entry::MacroKind;
use crate::text::{decimal, decimal_string, followed_by, same_text};
use crate::token::Token;

verus! {

/// What follows the path of an attribute.
#[derive(Debug)]
pub enum Meta {
    /// Nothing: `#[path]`.
    Path,
    /// Tokens between delimiters: `#[path(tokens)]`.
    List(Vec<Token>),
    /// A value: `#[path = value]`.
    NameValue,
}

/// One attribute of a definition.
#[derive(Debug)]
pub struct Attribute {
    /// The path of the attribute, where it is a single identifier.
    pub path: Option<String>,
    pub meta: Meta,
}

/// The three shapes of an attribute, without what a list holds.
#[derive(Clone, Copy, Debug, PartialEq, Eq, Structural)]
pub enum Shape {
    Path,
    List,
    NameValue,
}

/// The kind of macro that one attribute declares, if it declares one, and
/// for a derive the name that is derived.
///
/// `path` is the attribute's path where it is one identifier; `ident` is
/// the identifier that the tokens of a list begin with, where they begin
/// with one. A derive is named by the first identifier of its list; what
/// follows it there, such as the helper attributes it declares, is of no
/// account.
pub open spec fn declared(path: Option<Seq<char>>, shape: Shape, ident: Option<Seq<char>>)
    -> Option<(MacroKind, Option<Seq<char>>)> {
    match shape {
        Shape::Path => if path == Some("proc_macro"@) {
            Some((MacroKind::Function, None))
        } else if path == Some("proc_macro_attribute"@) {
            Some((MacroKind::Attribute, None))
        } else {
            None
        },
        Shape::List => if path == Some("proc_macro_derive"@) && ident is Some {
            Some((MacroKind::Derive, ident))
        } else {
            None
        },
        Shape::NameValue => None,
    }
}

impl Attribute {
    /// The shape of the attribute.
    pub open spec fn shape(&self) -> Shape {
        match self.meta {
            Meta::Path => Shape::Path,
            Meta::List(_) => Shape::List,
            Meta::NameValue => Shape::NameValue,
        }
    }

    /// The identifier that the tokens of a list begin with, if they begin
    /// with one.
    pub open spec fn first_ident(&self) -> Option<Seq<char>> {
        match self.meta {
            Meta::List(tokens) => if tokens@.len() > 0 {
                match tokens@[0] {
                    Token::Ident { name, .. } => Some(name@),
                    _ => None,
                }
            } else {
                None
            },
            _ => None,
        }
    }

    /// What the attribute declares.
    pub open spec fn declares(&self) -> Option<(MacroKind, Option<Seq<char>>)> {
        declared(opt_text(self.path), self.shape(), self.first_ident())
    }

    /// The attribute belongs on the wrapper rather than on the wrapped
    /// definition: it declares a macro, handles the macro's errors, or is
    /// documentation.
    pub open spec fn outer(&self) -> bool {
        self.path matches Some(p) && (p@ == "proc_macro"@ || p@ == "proc_macro_attribute"@ || p@
            == "proc_macro_derive"@ || p@ == "proc_macro_error"@ || p@ == "doc"@)
    }

    /// Whether the attribute belongs on the wrapper.
    pub fn is_outer(&self) -> (r: bool)
        ensures
            r == self.outer(),
    {
        match &self.path {
            Some(p) => {
                let p = p.as_str();
                same_text(p, "proc_macro") || same_text(p, "proc_macro_attribute") || same_text(
                    p,
                    "proc_macro_derive",
                ) || same_text(p, "proc_macro_error") || same_text(p, "doc")
            },
            None => false,
        }
    }
}

/// The pair of a kind and an optional name, by the name's characters.
pub open spec fn declaration_view(d: Option<(MacroKind, Option<String>)>) -> Option<
    (MacroKind, Option<Seq<char>>),
> {
    match d {
        Some((k, name)) => Some((k, opt_text(name))),
        None => None,
    }
}

/// What one attribute declares, from its path, its shape and the
/// identifier that its list begins with.
pub fn declaration(path: Option<&str>, shape: Shape, ident: Option<String>) -> (r: Option<
    (MacroKind, Option<String>),
>)
    ensures
        declaration_view(r) == declared(
            match path {
                Some(p) => Some(p@),
                None => None,
            },
            shape,
            opt_text(ident),
        ),
{
    let p = match path {
        Some(p) => p,
        None => {
            return None;
        },
    };
    match shape {
        Shape::Path => {
            if same_text(p, "proc_macro") {
                Some((MacroKind::Function, None))
            } else if same_text(p, "proc_macro_attribute") {
                Some((MacroKind::Attribute, None))
            } else {
                None
            }
        },
        Shape::List => {
            if same_text(p, "proc_macro_derive") && ident.is_some() {
                Some((MacroKind::Derive, ident))
            } else {
                None
            }
        },
        Shape::NameValue => None,
    }
}

/// What the first attribute that declares a macro declares.
pub open spec fn first_declared(attrs: Seq<Attribute>) -> Option<(MacroKind, Option<Seq<char>>)>
    decreases attrs.len(),
{
    if attrs.len() == 0 {
        None
    } else if attrs[0].declares() is Some {
        attrs[0].declares()
    } else {
        first_declared(attrs.skip(1))
    }
}

/// The kind of macro that a definition with the attributes `attrs` is, and
/// for a derive the name that is derived; nothing where no attribute
/// declares a macro.
pub fn check_macro_kind(attrs: &Vec<Attribute>) -> (r: Option<(MacroKind, Option<String>)>)
    ensures
        declaration_view(r) == first_declared(attrs@),
{
    let mut i: usize = 0;
    assert(attrs@.skip(0) =~= attrs@);
    while i < attrs.len()
        invariant
            i <= attrs.len(),
            first_declared(attrs@.skip(i as int)) == first_declared(attrs@),
        decreases attrs.len() - i,
    {
        let attr = &attrs[i];
        let path: Option<&str> = match &attr.path {
            Some(p) => Some(p.as_str()),
            None => None,
        };
        let found = match &attr.meta {
            Meta::Path => declaration(path, Shape::Path, None),
            Meta::List(tokens) => {
                let first = if tokens.len() > 0 {
                    match &tokens[0] {
                        Token::Ident { name, .. } => Some(name.clone()),
                        _ => None,
                    }
                } else {
                    None
                };
                declaration(path, Shape::List, first)
            },
            Meta::NameValue => declaration(path, Shape::NameValue, None),
        };
        proof {
            assert(attrs@.skip(i as int)[0] == attrs@[i as int]);
            assert(declaration_view(found) == attrs@[i as int].declares());
        }
        if found.is_some() {
            return found;
        }
        assert(attrs@.skip(i as int).skip(1) =~= attrs@.skip(i + 1));
        i += 1;
    }
    None
}

/// The name under which the wrapper takes its parameter at index `n`: the
/// parameter's own name where it has one other than `_`, else a name made
/// from the index.
pub open spec fn parameter_name(n: nat, own: Option<Seq<char>>) -> Seq<char> {
    match own {
        Some(name) => if name == "_"@ {
            "__proc_debug_arg_"@ + decimal(n)
        } else {
            name
        },
        None => "__proc_debug_arg_"@ + decimal(n),
    }
}

/// The name under which the wrapper takes its parameter at index `n`.
pub fn argument_name(n: usize, own: Option<&str>) -> (out: String)
    ensures
        out@ == parameter_name(
            n as nat,
            match own {
                Some(s) => Some(s@),
                None => None,
            },
        ),
{
    match own {
        Some(name) => {
            if !same_text(name, "_") {
                return name.to_owned();
            }
        },
        None => {},
    }
    let number = decimal_string(n);
    followed_by("__proc_debug_arg_", number.as_str())
}

} // verus!
