//! The two blocks that are displayed for a captured call: what went into
//! the macro, and what came out of it.

use vstd::prelude::*;
use crate::entry::{enough_inputs, kind_named, MacroKind};
use crate::text::{chars_of, decimal, decimal_string, join, joined, push_str, string_of, texts};

verus! {

/// A block to display: one line of heading, and the text under it.
#[derive(Debug, PartialEq, Eq)]
pub struct Block {
    pub header: String,
    pub body: String,
}

/// The text `s` from its first character on, with two spaces after every
/// line break.
pub open spec fn indented_tail(s: Seq<char>) -> Seq<char>
    decreases s.len(),
{
    if s.len() == 0 {
        Seq::empty()
    } else if s[0] == '\n' {
        seq!['\n', ' ', ' '] + indented_tail(s.skip(1))
    } else {
        seq![s[0]] + indented_tail(s.skip(1))
    }
}

/// The text `s` with two spaces before each of its lines.
pub open spec fn indented(s: Seq<char>) -> Seq<char> {
    seq![' ', ' '] + indented_tail(s)
}

/// The heading of a block: what it shows (`input` or `output`), of which
/// macro, and where the macro was called.
pub open spec fn heading(
    what: Seq<char>,
    modpath: Seq<char>,
    macro_name: Seq<char>,
    file: Seq<char>,
    line: nat,
) -> Seq<char> {
    what + " of "@ + modpath + "::"@ + macro_name + " ("@ + file + ":"@ + decimal(line) + ")"@
}

/// A macro call as it would be written in a source: `name!{input}` for a
/// function-like macro; for an attribute, the attribute with its arguments
/// on one line and the item below it; for a derive, the derive attribute
/// and the item below it. Of a call of unknown kind, the inputs with commas
/// between them.
pub open spec fn call_text(
    kind: Option<MacroKind>,
    macro_name: Seq<char>,
    inputs: Seq<Seq<char>>,
) -> Seq<char> {
    match kind {
        Some(MacroKind::Function) => macro_name + "!{"@ + inputs[0] + "}"@,
        Some(MacroKind::Attribute) => "#["@ + macro_name + "("@ + inputs[0] + ")]\n"@ + inputs[1],
        Some(MacroKind::Derive) => "#[derive("@ + inputs[0] + ")]\n"@ + inputs[1],
        None => joined(inputs, ","@),
    }
}

fn indent(s: &str) -> (out: String)
    ensures
        out@ == indented(s@),
{
    let src = chars_of(s);
    let mut out: Vec<char> = Vec::new();
    out.push(' ');
    out.push(' ');
    let ghost lead = out@;
    let mut i: usize = 0;
    assert(src@.skip(0) =~= src@);
    assert(lead =~= seq![' ', ' ']);
    while i < src.len()
        invariant
            i <= src.len(),
            out@ + indented_tail(src@.skip(i as int)) == lead + indented_tail(src@),
        decreases src.len() - i,
    {
        let ghost cur = src@.skip(i as int);
        let ghost done = out@;
        out.push(src[i]);
        if src[i] == '\n' {
            out.push(' ');
            out.push(' ');
        }
        proof {
            assert(cur.skip(1) =~= src@.skip(i + 1));
            assert(out@ + indented_tail(src@.skip(i + 1)) =~= done + indented_tail(cur));
        }
        i += 1;
    }
    assert(src@.skip(i as int) =~= Seq::<char>::empty());
    assert(out@ + Seq::<char>::empty() =~= out@);
    string_of(&out)
}

fn make_heading(what: &str, modpath: &str, macro_name: &str, file: &str, line: usize) -> (out:
    String)
    ensures
        out@ == heading(what@, modpath@, macro_name@, file@, line as nat),
{
    let number = decimal_string(line);
    let mut out: Vec<char> = Vec::new();
    push_str(&mut out, what);
    push_str(&mut out, " of ");
    push_str(&mut out, modpath);
    push_str(&mut out, "::");
    push_str(&mut out, macro_name);
    push_str(&mut out, " (");
    push_str(&mut out, file);
    push_str(&mut out, ":");
    push_str(&mut out, number.as_str());
    push_str(&mut out, ")");
    assert(out@ =~= heading(what@, modpath@, macro_name@, file@, line as nat));
    string_of(&out)
}

/// The block that shows what went into a macro call.
pub fn show_macro_call(
    modpath: &str,
    macro_name: &str,
    file: &str,
    line: usize,
    macro_kind: &str,
    macro_inputs: &Vec<String>,
) -> (block: Block)
    requires
        enough_inputs(kind_named(macro_kind@), macro_inputs@.len()),
    ensures
        block.header@ == heading("input"@, modpath@, macro_name@, file@, line as nat),
        block.body@ == indented(
            call_text(kind_named(macro_kind@), macro_name@, texts(macro_inputs@)),
        ),
{
    let mut content: Vec<char> = Vec::new();
    let ghost inputs = texts(macro_inputs@);
    match MacroKind::from_str(macro_kind) {
        Ok(MacroKind::Function) => {
            push_str(&mut content, macro_name);
            push_str(&mut content, "!{");
            push_str(&mut content, macro_inputs[0].as_str());
            push_str(&mut content, "}");
        },
        Ok(MacroKind::Attribute) => {
            push_str(&mut content, "#[");
            push_str(&mut content, macro_name);
            push_str(&mut content, "(");
            push_str(&mut content, macro_inputs[0].as_str());
            push_str(&mut content, ")]\n");
            push_str(&mut content, macro_inputs[1].as_str());
        },
        Ok(MacroKind::Derive) => {
            push_str(&mut content, "#[derive(");
            push_str(&mut content, macro_inputs[0].as_str());
            push_str(&mut content, ")]\n");
            push_str(&mut content, macro_inputs[1].as_str());
        },
        Err(_) => {
            let all = join(macro_inputs, ",");
            push_str(&mut content, all.as_str());
        },
    }
    assert(content@ =~= call_text(kind_named(macro_kind@), macro_name@, inputs));
    let text = string_of(&content);
    Block { header: make_heading("input", modpath, macro_name, file, line), body: indent(text.as_str()) }
}

/// The block that shows what came out of a macro call.
pub fn show_macro_output(
    modpath: &str,
    macro_name: &str,
    file: &str,
    line: usize,
    macro_output: &str,
) -> (block: Block)
    ensures
        block.header@ == heading("output"@, modpath@, macro_name@, file@, line as nat),
        block.body@ == indented(macro_output@),
{
    Block {
        header: make_heading("output", modpath, macro_name, file, line),
        body: indent(macro_output),
    }
}

} // verus!
