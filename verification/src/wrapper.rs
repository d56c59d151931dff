//! The wrapper around one macro call: it numbers the call, runs the macro,
//! and, where the query asks for the call, prepares what is displayed and
//! the canonical form of the output.

use vstd::prelude::*;
use crate::classify::{classified, consistent, emitted, Category, MacroOutput, ParsesView};
use crate::entry::Entry;
use crate::filter::{passes, ProcDebugArgs};
use crate::show::{call_text, heading, indented, show_macro_call, show_macro_output, Block};
use crate::text::texts;
use crate::token::{render, rendered, stream_view, Token, TokenView};
use crate::truncate::{restored, simplify_and_replace, truncated, unreplace};

verus! {

/// Numbers the calls of one run: the first gets one, each next call one
/// more than the call before it.
#[derive(Debug)]
pub struct Counter {
    issued: usize,
}

/// One step of a counter: from `before` calls numbered, it hands out `n`
/// and has `after` calls numbered.
pub open spec fn counted(before: nat, n: nat, after: nat) -> bool {
    n == before + 1 && after == n
}

impl View for Counter {
    type V = nat;

    /// How many calls have been numbered.
    closed spec fn view(&self) -> nat {
        self.issued as nat
    }
}

impl Counter {
    /// A counter that has numbered no call yet.
    pub fn new() -> (c: Counter)
        ensures
            c@ == 0,
    {
        Counter { issued: 0 }
    }

    /// A counter that has numbered `issued` calls: the counter of a run
    /// that is under way.
    pub fn resume(issued: usize) -> (c: Counter)
        ensures
            c@ == issued,
    {
        Counter { issued }
    }

    /// How many calls have been numbered.
    pub fn issued(&self) -> (n: usize)
        ensures
            n == self@,
    {
        self.issued
    }

    /// Whether the counter has run out of numbers.
    pub fn exhausted(&self) -> (r: bool)
        ensures
            r == (self@ >= usize::MAX),
    {
        self.issued == usize::MAX
    }

    /// The number of the next call.
    pub fn count(&mut self) -> (n: usize)
        requires
            old(self)@ < usize::MAX,
        ensures
            counted(old(self)@, n as nat, final(self)@),
    {
        self.issued = self.issued + 1;
        self.issued
    }
}

/// The calls of a run get the numbers one, two, three and so on: when the
/// counter goes from no call numbered through `numbers.len()` steps, the
/// step at index `i` hands out `i + 1`. So each call gets a number of its
/// own, no number from one to the count of calls is left out, and none
/// beyond it is given.
pub proof fn lemma_numbers_run_from_one(states: Seq<nat>, numbers: Seq<nat>)
    requires
        states.len() == numbers.len() + 1,
        states[0] == 0,
        forall|i: int|
            0 <= i < numbers.len() ==> counted(states[i], #[trigger] numbers[i], states[i + 1]),
    ensures
        forall|i: int| 0 <= i < numbers.len() ==> #[trigger] numbers[i] == i + 1,
        forall|i: int, j: int|
            0 <= i < j < numbers.len() ==> #[trigger] numbers[i] != #[trigger] numbers[j],
        forall|k: nat| 1 <= k <= numbers.len() ==> numbers.contains(k),
{
    assert forall|i: int| 0 <= i < numbers.len() implies #[trigger] numbers[i] == i + 1
        && states[i + 1] == i + 1 by {
        lemma_state_after(states, numbers, i);
    }
    assert forall|k: nat| 1 <= k <= numbers.len() implies numbers.contains(k) by {
        assert(numbers[k - 1] == k);
    }
}

proof fn lemma_state_after(states: Seq<nat>, numbers: Seq<nat>, i: int)
    requires
        states.len() == numbers.len() + 1,
        states[0] == 0,
        forall|i: int|
            0 <= i < numbers.len() ==> counted(states[i], #[trigger] numbers[i], states[i + 1]),
        0 <= i < numbers.len(),
    ensures
        numbers[i] == i + 1,
        states[i + 1] == i + 1,
    decreases i,
{
    if i > 0 {
        lemma_state_after(states, numbers, i - 1);
    }
    assert(counted(states[i], numbers[i], states[i + 1]));
}

/// What is displayed for a call, and what is handed on in place of the raw
/// output.
#[derive(Debug, PartialEq, Eq)]
pub struct Shown {
    /// What went into the macro.
    pub input: Block,
    /// What came out, cut to the depth of the query.
    pub output: Block,
    /// The syntax category of the output.
    pub category: Category,
    /// The canonical text of the output, by its category. For an
    /// unclassified output it is the text of the output as it came.
    pub emitted: String,
}

/// The outcome of one wrapped call.
#[derive(Debug)]
pub struct Capture {
    /// The number of the call.
    pub number: usize,
    /// What the macro returned.
    pub raw: Vec<Token>,
    /// What to display, where the query asks for this call; nothing where
    /// there is no query or the call does not pass it.
    pub shown: Option<Shown>,
}

/// `shown` is what the call `e` with the output `raw` shows under `q`: the
/// two blocks, and the category and canonical text that the output has by
/// what the grammars answered, whatever that was.
pub open spec fn shows(e: Entry, q: ProcDebugArgs, raw: Seq<TokenView>, shown: Shown) -> bool {
    &&& shown.input.header@ == heading("input"@, e.modpath@, e.macro_name@, e.file@, e.line as nat)
    &&& shown.input.body@ == indented(call_text(e.kind(), e.macro_name@, texts(e.macro_inputs@)))
    &&& shown.output.header@ == heading(
        "output"@,
        e.modpath@,
        e.macro_name@,
        e.file@,
        e.line as nat,
    )
    &&& shown.output.body@ == indented(
        rendered(restored(truncated(raw, q.spec_cut_depth() as nat, 0))),
    )
    &&& exists|p: ParsesView|
        consistent(p) && ({
            let output = #[trigger] classified(e.kind()->0, rendered(raw), p);
            shown.category == output.category && shown.emitted@ == emitted(output)
        })
}

/// What is shown for the call `entry` with the output `raw` under `args`.
pub fn present(entry: &Entry, args: &ProcDebugArgs, raw: &Vec<Token>) -> (shown: Shown)
    requires
        entry.well_formed(),
    ensures
        shows(*entry, *args, stream_view(raw@), shown),
{
    let input = show_macro_call(
        entry.modpath.as_str(),
        entry.macro_name.as_str(),
        entry.file.as_str(),
        entry.line,
        entry.macro_kind.as_str(),
        &entry.macro_inputs,
    );
    let kind = entry.known_kind().unwrap();
    let output = MacroOutput::from_tokens(raw, &kind);
    let simplified = simplify_and_replace(raw, args.cut_depth());
    let text = render(&unreplace(&simplified));
    let block = show_macro_output(
        entry.modpath.as_str(),
        entry.macro_name.as_str(),
        entry.file.as_str(),
        entry.line,
        text.as_str(),
    );
    Shown { input, output: block, category: output.category(), emitted: output.emit() }
}

/// Wraps one macro call.
///
/// The call gets the next number of `counter`, then `f` runs, whatever the
/// query and whatever the call: its result is `raw` in the outcome. Without
/// a query, and for a call that does not pass the query, nothing else
/// happens, be the kind of the call unknown or its inputs missing. For a
/// call that passes, the outcome also holds the two blocks to display and
/// the canonical text of the output; only such a call has to be one that
/// can be shown.
pub fn proc_wrapper<F: FnOnce() -> Vec<Token>>(
    counter: &mut Counter,
    args: Option<&ProcDebugArgs>,
    entry: &Entry,
    f: F,
) -> (out: Capture)
    requires
        old(counter)@ < usize::MAX,
        (args matches Some(q) && passes(*entry, *q, old(counter)@ + 1)) ==> entry.well_formed(),
        call_requires(f, ()),
    ensures
        counted(old(counter)@, out.number as nat, final(counter)@),
        call_ensures(f, (), out.raw),
        out.shown is Some <==> (args matches Some(q) && passes(*entry, *q, out.number as nat)),
        out.shown matches Some(shown) ==> shows(*entry, *args->0, stream_view(out.raw@), shown),
{
    let number = counter.count();
    let raw = f();
    let shown = match args {
        Some(q) => {
            if entry.check_filter(q, number) {
                Some(present(entry, q, &raw))
            } else {
                None
            }
        },
        None => None,
    };
    Capture { number, raw, shown }
}

} // verus!
