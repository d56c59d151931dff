//! Classification of a captured output into a syntax category.
//!
//! The grammars themselves are those of the `syn` parser, which is asked
//! about the text of the output. Nothing is claimed here of what `syn`
//! answers. The contracts say what is made of the answers, whatever they
//! are: which grammar is heeded before which, and what is emitted in the
//! end.

use vstd::prelude::*;
use template_quote::ToTokens;
use syn::parse::Parser;
use crate::entry::MacroKind;
use crate::text::{chars_of, join, joined, texts};
use crate::token::{render, rendered, stream_view, Token};

verus! {

/// Whether `char::is_uppercase` holds of a character.
pub uninterp spec fn unicode_uppercase(c: char) -> bool;

/// The characters of an optional string.
pub open spec fn opt_text(o: Option<String>) -> Option<Seq<char>> {
    match o {
        Some(s) => Some(s@),
        None => None,
    }
}

/// The characters of each string of an optional list.
pub open spec fn opt_texts(o: Option<Vec<String>>) -> Option<Seq<Seq<char>>> {
    match o {
        Some(v) => Some(texts(v@)),
        None => None,
    }
}

/// Calls `syn::parse_str` for `syn::Ident`, which lexes the text and
/// succeeds where the tokens are one identifier with nothing left over, and
/// takes the identifier's name. Nothing is promised of the answer: by which
/// lexer the text is read depends on whether the process hosts a macro.
#[verifier::external_body]
fn parse_ident(text: &str) -> (r: Option<String>) {
    syn::parse_str::<syn::Ident>(text).ok().map(|t| t.to_string())
}

/// Calls `syn::parse_str` for `syn::Type` and prints the type that was
/// read. Nothing is promised of the answer: by which lexer the text is read
/// and by which printer the type is printed depends on whether the process
/// hosts a macro.
#[verifier::external_body]
fn parse_type(text: &str) -> (r: Option<String>) {
    syn::parse_str::<syn::Type>(text).ok().map(|t| t.to_token_stream().to_string())
}

/// Calls `Punctuated::parse_terminated` for `syn::ImplItem` with
/// `syn::parse::Nothing` for punctuation, through `Parser::parse_str`: it
/// lexes the text, reads member after member until the tokens are used up,
/// and fails where a member does not parse. Each member is printed. Nothing
/// is promised of the answer, for the same reason as in [`parse_type`].
#[verifier::external_body]
fn parse_impl_items(text: &str) -> (r: Option<Vec<String>>) {
    let parser = syn::punctuated::Punctuated::<syn::ImplItem, syn::parse::Nothing>::parse_terminated;
    match parser.parse_str(text) {
        Ok(all) => Some(all.iter().map(|m| m.to_token_stream().to_string()).collect()),
        Err(_) => None,
    }
}

/// As [`parse_impl_items`], for `syn::TraitItem`.
#[verifier::external_body]
fn parse_trait_items(text: &str) -> (r: Option<Vec<String>>) {
    let parser = syn::punctuated::Punctuated::<syn::TraitItem, syn::parse::Nothing>::parse_terminated;
    match parser.parse_str(text) {
        Ok(all) => Some(all.iter().map(|m| m.to_token_stream().to_string()).collect()),
        Err(_) => None,
    }
}

/// As [`parse_impl_items`], for `syn::ForeignItem`.
#[verifier::external_body]
fn parse_foreign_items(text: &str) -> (r: Option<Vec<String>>) {
    let parser = syn::punctuated::Punctuated::<syn::ForeignItem, syn::parse::Nothing>::parse_terminated;
    match parser.parse_str(text) {
        Ok(all) => Some(all.iter().map(|m| m.to_token_stream().to_string()).collect()),
        Err(_) => None,
    }
}

/// As [`parse_impl_items`], for `syn::Item`.
#[verifier::external_body]
fn parse_items(text: &str) -> (r: Option<Vec<String>>) {
    let parser = syn::punctuated::Punctuated::<syn::Item, syn::parse::Nothing>::parse_terminated;
    match parser.parse_str(text) {
        Ok(all) => Some(all.iter().map(|m| m.to_token_stream().to_string()).collect()),
        Err(_) => None,
    }
}

/// As [`parse_impl_items`], for `syn::Stmt`.
#[verifier::external_body]
fn parse_stmts(text: &str) -> (r: Option<Vec<String>>) {
    let parser = syn::punctuated::Punctuated::<syn::Stmt, syn::parse::Nothing>::parse_terminated;
    match parser.parse_str(text) {
        Ok(all) => Some(all.iter().map(|m| m.to_token_stream().to_string()).collect()),
        Err(_) => None,
    }
}

/// Calls `char::is_uppercase`, which goes by the Unicode property
/// `Uppercase`.
#[verifier::external_body]
fn is_uppercase(c: char) -> (r: bool)
    ensures
        r == unicode_uppercase(c),
{
    c.is_uppercase()
}

/// The tag of a syntax category.
#[derive(Clone, Copy, Debug, PartialEq, Eq, Structural)]
pub enum Category {
    Expr,
    Type,
    ImplItem,
    TraitItem,
    ForeignItem,
    Item,
    Stmt,
    Other,
}

/// A captured output, classified: an expression or a type by its text; a
/// list by the text of each member; anything else by the text as it came.
#[derive(Debug, PartialEq, Eq)]
pub enum MacroOutput {
    Expr(String),
    Type(String),
    ImplItem(Vec<String>),
    TraitItem(Vec<String>),
    ForeignItem(Vec<String>),
    Item(Vec<String>),
    Stmt(Vec<String>),
    Other(String),
}

/// The mathematical value of a [`MacroOutput`]: its category and its parts,
/// of which an expression, a type and an unclassified output have one.
pub struct MacroOutputView {
    pub category: Category,
    pub parts: Seq<Seq<char>>,
}

impl View for MacroOutput {
    type V = MacroOutputView;

    open spec fn view(&self) -> MacroOutputView {
        match self {
            MacroOutput::Expr(s) => MacroOutputView { category: Category::Expr, parts: seq![s@] },
            MacroOutput::Type(s) => MacroOutputView { category: Category::Type, parts: seq![s@] },
            MacroOutput::ImplItem(v) => MacroOutputView {
                category: Category::ImplItem,
                parts: texts(v@),
            },
            MacroOutput::TraitItem(v) => MacroOutputView {
                category: Category::TraitItem,
                parts: texts(v@),
            },
            MacroOutput::ForeignItem(v) => MacroOutputView {
                category: Category::ForeignItem,
                parts: texts(v@),
            },
            MacroOutput::Item(v) => MacroOutputView { category: Category::Item, parts: texts(v@) },
            MacroOutput::Stmt(v) => MacroOutputView { category: Category::Stmt, parts: texts(v@) },
            MacroOutput::Other(s) => MacroOutputView { category: Category::Other, parts: seq![s@] },
        }
    }
}

/// What each grammar made of one text.
#[derive(Debug)]
pub struct Parses {
    /// The identifier, where the text is one.
    pub ident: Option<String>,
    /// Whether that identifier begins with an uppercase character.
    pub capitalized: bool,
    /// The type, where the text is one.
    pub ty: Option<String>,
    pub impl_items: Option<Vec<String>>,
    pub trait_items: Option<Vec<String>>,
    pub foreign_items: Option<Vec<String>>,
    pub items: Option<Vec<String>>,
    pub stmts: Option<Vec<String>>,
}

/// The mathematical value of a [`Parses`].
pub struct ParsesView {
    pub ident: Option<Seq<char>>,
    pub capitalized: bool,
    pub ty: Option<Seq<char>>,
    pub impl_items: Option<Seq<Seq<char>>>,
    pub trait_items: Option<Seq<Seq<char>>>,
    pub foreign_items: Option<Seq<Seq<char>>>,
    pub items: Option<Seq<Seq<char>>>,
    pub stmts: Option<Seq<Seq<char>>>,
}

impl View for Parses {
    type V = ParsesView;

    open spec fn view(&self) -> ParsesView {
        ParsesView {
            ident: opt_text(self.ident),
            capitalized: self.capitalized,
            ty: opt_text(self.ty),
            impl_items: opt_texts(self.impl_items),
            trait_items: opt_texts(self.trait_items),
            foreign_items: opt_texts(self.foreign_items),
            items: opt_texts(self.items),
            stmts: opt_texts(self.stmts),
        }
    }
}

/// The answers agree with each other: the identifier counts as
/// capitalized just when there is one and `char::is_uppercase` holds of its
/// first character.
pub open spec fn consistent(p: ParsesView) -> bool {
    p.capitalized == (p.ident matches Some(name) && name.len() > 0 && unicode_uppercase(name[0]))
}

/// A list grammar accepted the text: it read the whole of it, as one member
/// or more.
pub open spec fn accepted(members: Option<Seq<Seq<char>>>) -> bool {
    members matches Some(m) && m.len() > 0
}

/// The category of an output of a macro of kind `kind`, whose text is `text`
/// and of which the grammars made `p`. The first of these that applies:
///
/// 1. from a function-like macro, a single identifier is a type if it is
///    capitalized and an expression if not;
/// 2. from a function-like macro, a type is a type;
/// 3. members of an `impl` block; 4. members of a trait; 5. declarations
///    of an `extern` block; 6. items; 7. statements;
/// 8. anything else is unclassified, and keeps its text.
pub open spec fn classified(kind: MacroKind, text: Seq<char>, p: ParsesView) -> MacroOutputView {
    if kind == MacroKind::Function && p.ident is Some {
        MacroOutputView {
            category: if p.capitalized {
                Category::Type
            } else {
                Category::Expr
            },
            parts: seq![p.ident->0],
        }
    } else if kind == MacroKind::Function && p.ty is Some {
        MacroOutputView { category: Category::Type, parts: seq![p.ty->0] }
    } else if accepted(p.impl_items) {
        MacroOutputView { category: Category::ImplItem, parts: p.impl_items->0 }
    } else if accepted(p.trait_items) {
        MacroOutputView { category: Category::TraitItem, parts: p.trait_items->0 }
    } else if accepted(p.foreign_items) {
        MacroOutputView { category: Category::ForeignItem, parts: p.foreign_items->0 }
    } else if accepted(p.items) {
        MacroOutputView { category: Category::Item, parts: p.items->0 }
    } else if accepted(p.stmts) {
        MacroOutputView { category: Category::Stmt, parts: p.stmts->0 }
    } else {
        MacroOutputView { category: Category::Other, parts: seq![text] }
    }
}

/// The canonical text of a classified output: its parts, one space apart.
pub open spec fn emitted(o: MacroOutputView) -> Seq<char> {
    joined(o.parts, seq![' '])
}

fn nonempty(members: &Option<Vec<String>>) -> (r: bool)
    ensures
        r == accepted(opt_texts(*members)),
{
    match members {
        Some(v) => v.len() > 0,
        None => false,
    }
}

/// Asks every grammar about `text`. What the grammars answer is the
/// parser's business; the answers that come back agree with each other.
pub fn probe(text: &str) -> (p: Parses)
    ensures
        consistent(p@),
{
    let ident = parse_ident(text);
    let capitalized = match &ident {
        Some(name) => {
            let cs = chars_of(name.as_str());
            cs.len() > 0 && is_uppercase(cs[0])
        },
        None => false,
    };
    Parses {
        ident,
        capitalized,
        ty: parse_type(text),
        impl_items: parse_impl_items(text),
        trait_items: parse_trait_items(text),
        foreign_items: parse_foreign_items(text),
        items: parse_items(text),
        stmts: parse_stmts(text),
    }
}

impl MacroOutput {
    /// Classifies an output from what the grammars made of its text.
    pub fn select(kind: &MacroKind, text: String, parses: Parses) -> (out: MacroOutput)
        ensures
            out@ == classified(*kind, text@, parses@),
    {
        let function = matches!(kind, MacroKind::Function);
        let accept_impl = nonempty(&parses.impl_items);
        let accept_trait = nonempty(&parses.trait_items);
        let accept_foreign = nonempty(&parses.foreign_items);
        let accept_items = nonempty(&parses.items);
        let accept_stmts = nonempty(&parses.stmts);
        let Parses { ident, capitalized, ty, impl_items, trait_items, foreign_items, items, stmts } =
            parses;
        if function && ident.is_some() {
            let name = ident.unwrap();
            if capitalized {
                MacroOutput::Type(name)
            } else {
                MacroOutput::Expr(name)
            }
        } else if function && ty.is_some() {
            MacroOutput::Type(ty.unwrap())
        } else if accept_impl {
            MacroOutput::ImplItem(impl_items.unwrap())
        } else if accept_trait {
            MacroOutput::TraitItem(trait_items.unwrap())
        } else if accept_foreign {
            MacroOutput::ForeignItem(foreign_items.unwrap())
        } else if accept_items {
            MacroOutput::Item(items.unwrap())
        } else if accept_stmts {
            MacroOutput::Stmt(stmts.unwrap())
        } else {
            MacroOutput::Other(text)
        }
    }

    /// Classifies the output `tokens` of a macro of kind `kind`: the
    /// grammars are asked about the text of the tokens, and whatever they
    /// answer, the output is classified from the answers.
    pub fn from_tokens(tokens: &Vec<Token>, kind: &MacroKind) -> (out: MacroOutput)
        ensures
            exists|p: ParsesView|
                consistent(p) && out@ == #[trigger] classified(
                    *kind,
                    rendered(stream_view(tokens@)),
                    p,
                ),
    {
        let text = render(tokens);
        let parses = probe(text.as_str());
        let ghost answers = parses@;
        let out = MacroOutput::select(kind, text, parses);
        assert(out@ == classified(*kind, rendered(stream_view(tokens@)), answers));
        out
    }

    /// The category of the output.
    pub fn category(&self) -> (c: Category)
        ensures
            c == self@.category,
    {
        match self {
            MacroOutput::Expr(_) => Category::Expr,
            MacroOutput::Type(_) => Category::Type,
            MacroOutput::ImplItem(_) => Category::ImplItem,
            MacroOutput::TraitItem(_) => Category::TraitItem,
            MacroOutput::ForeignItem(_) => Category::ForeignItem,
            MacroOutput::Item(_) => Category::Item,
            MacroOutput::Stmt(_) => Category::Stmt,
            MacroOutput::Other(_) => Category::Other,
        }
    }

    /// The canonical text of the output.
    pub fn emit(&self) -> (out: String)
        ensures
            out@ == emitted(self@),
    {
        proof {
            reveal_strlit(" ");
            assert(" "@ =~= seq![' ']);
        }
        match self {
            MacroOutput::Expr(s) => s.clone(),
            MacroOutput::Type(s) => s.clone(),
            MacroOutput::ImplItem(v) => join(v, " "),
            MacroOutput::TraitItem(v) => join(v, " "),
            MacroOutput::ForeignItem(v) => join(v, " "),
            MacroOutput::Item(v) => join(v, " "),
            MacroOutput::Stmt(v) => join(v, " "),
            MacroOutput::Other(s) => s.clone(),
        }
    }
}

} // verus!
