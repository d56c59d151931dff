//! One observed macro call and the kind of macro that was called.

use vstd::prelude::*;
use crate::text::same_text;

verus! {

/// The three ways a macro can be invoked.
#[derive(Clone, Copy, Debug, PartialEq, Eq, Hash, Structural)]
pub enum MacroKind {
    Function,
    Attribute,
    Derive,
}

/// The kind that a name stands for, if it is the name of a kind.
pub open spec fn kind_named(s: Seq<char>) -> Option<MacroKind> {
    if s == "function"@ {
        Some(MacroKind::Function)
    } else if s == "attribute"@ {
        Some(MacroKind::Attribute)
    } else if s == "derive"@ {
        Some(MacroKind::Derive)
    } else {
        None
    }
}

impl MacroKind {
    /// Reads a kind from its name: `function`, `attribute` or `derive`.
    pub fn from_str(s: &str) -> (r: Result<MacroKind, &'static str>)
        ensures
            match r {
                Ok(k) => kind_named(s@) == Some(k),
                Err(e) => kind_named(s@) is None && e@ == "Bad name"@,
            },
    {
        if same_text(s, "function") {
            Ok(MacroKind::Function)
        } else if same_text(s, "attribute") {
            Ok(MacroKind::Attribute)
        } else if same_text(s, "derive") {
            Ok(MacroKind::Derive)
        } else {
            Err("Bad name")
        }
    }

    /// The name of the kind.
    pub fn name(&self) -> (r: &'static str)
        ensures
            kind_named(r@) == Some(*self),
    {
        proof {
            reveal_strlit("function");
            reveal_strlit("attribute");
            reveal_strlit("derive");
            assert("function"@.len() == 8);
            assert("attribute"@.len() == 9);
            assert("derive"@.len() == 6);
        }
        match self {
            MacroKind::Function => "function",
            MacroKind::Attribute => "attribute",
            MacroKind::Derive => "derive",
        }
    }

    /// How many inputs a call of this kind has: the argument tokens of a
    /// function-like macro; the attribute's arguments and the item for an
    /// attribute; the derive's name and the item for a derive.
    pub open spec fn spec_arity(self) -> usize {
        match self {
            MacroKind::Function => 1,
            MacroKind::Attribute => 2,
            MacroKind::Derive => 2,
        }
    }

    /// How many inputs a call of this kind has.
    #[verifier::when_used_as_spec(spec_arity)]
    pub fn arity(self) -> (n: usize)
        ensures
            n == self.spec_arity(),
    {
        match self {
            MacroKind::Function => 1,
            MacroKind::Attribute => 2,
            MacroKind::Derive => 2,
        }
    }
}

/// One capture event: where a macro was called, which macro, and with what.
///
/// The kind is held by its name, as it was handed in. A name that is not
/// the name of a kind is an unknown kind: such a call can be numbered, run
/// and filtered like any other, but not shown.
#[derive(Debug)]
pub struct Entry {
    pub label: String,
    pub file: String,
    pub line: usize,
    pub modpath: String,
    pub macro_kind: String,
    pub macro_name: String,
    pub macro_inputs: Vec<String>,
}

/// A call of kind `kind` with `inputs` inputs has the inputs that showing
/// it takes: as many as the kind has, for a known kind.
pub open spec fn enough_inputs(kind: Option<MacroKind>, inputs: nat) -> bool {
    match kind {
        Some(k) => inputs >= k.spec_arity(),
        None => true,
    }
}

impl Entry {
    /// The kind of the call, if its name is the name of a kind.
    pub open spec fn kind(&self) -> Option<MacroKind> {
        kind_named(self.macro_kind@)
    }

    /// The call can be shown: its kind is known, and it has at least as
    /// many inputs as a call of its kind takes.
    pub open spec fn well_formed(&self) -> bool {
        self.kind() is Some && enough_inputs(self.kind(), self.macro_inputs@.len())
    }

    /// The fully qualified name of the macro: its module path, the path
    /// separator, and its name.
    pub open spec fn qualified_name(&self) -> Seq<char> {
        self.modpath@ + "::"@ + self.macro_name@
    }

    /// The texts that substring terms are searched in.
    pub open spec fn searched(&self) -> Seq<Seq<char>> {
        seq![self.label@, self.file@, self.modpath@, self.macro_name@]
    }

    /// Makes an entry.
    pub fn new(
        label: &str,
        file: &str,
        line: usize,
        modpath: &str,
        macro_kind: &str,
        macro_name: &str,
        macro_inputs: Vec<String>,
    ) -> (e: Entry)
        ensures
            e.label@ == label@,
            e.file@ == file@,
            e.line == line,
            e.modpath@ == modpath@,
            e.macro_kind@ == macro_kind@,
            e.macro_name@ == macro_name@,
            e.macro_inputs == macro_inputs,
    {
        Entry {
            label: label.to_owned(),
            file: file.to_owned(),
            line,
            modpath: modpath.to_owned(),
            macro_kind: macro_kind.to_owned(),
            macro_name: macro_name.to_owned(),
            macro_inputs,
        }
    }

    /// The kind of the call, if its name is the name of a kind.
    pub fn known_kind(&self) -> (r: Option<MacroKind>)
        ensures
            r == self.kind(),
    {
        match MacroKind::from_str(self.macro_kind.as_str()) {
            Ok(k) => Some(k),
            Err(_) => None,
        }
    }

    /// Whether the call can be shown.
    pub fn is_well_formed(&self) -> (r: bool)
        ensures
            r == self.well_formed(),
    {
        match self.known_kind() {
            Some(k) => self.macro_inputs.len() >= k.arity(),
            None => false,
        }
    }
}

} // verus!
