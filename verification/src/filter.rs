//! The filter query and its evaluation against a captured call.

use vstd::prelude::*;
use crate::entry::Entry;
use crate::truncate::DEFAULT_DEPTH;
use crate::text::{
    begins_with, chars_of, contains_chars, ends_with, finishes_with, followed_by, occurs_in,
    same_text, starts_with, texts,
};

verus! {

/// What the user asked to see.
#[derive(Debug)]
pub struct ProcDebugArgs {
    /// Show every call.
    pub all: bool,
    /// Hide a call when any of these occurs in its label, file, module path
    /// or macro name.
    pub not: Vec<String>,
    /// Show a call whose qualified macro name is one of these paths, starts
    /// with one as a whole prefix of segments, or ends with one likewise.
    pub path: Vec<String>,
    /// Show a call when any of these occurs in its label, file, module path
    /// or macro name.
    pub queries: Vec<String>,
    /// How deep to show the output.
    pub depth: Option<usize>,
    /// How many calls to show at most.
    pub count: Option<usize>,
    /// Show the output whole.
    pub verbose: bool,
}

/// Some term occurs in some field.
pub open spec fn any_occurs(fields: Seq<Seq<char>>, terms: Seq<Seq<char>>) -> bool {
    exists|i: int, j: int|
        0 <= i < fields.len() && 0 <= j < terms.len() && occurs_in(
            #[trigger] fields[i],
            #[trigger] terms[j],
        )
}

/// The path `m` names `name`: it is `name`, or `name` starts with `m` and
/// the path separator, or `name` ends with the path separator and `m`.
pub open spec fn path_names(m: Seq<char>, name: Seq<char>) -> bool {
    ||| m == name
    ||| begins_with(name, m + "::"@)
    ||| finishes_with(name, "::"@ + m)
}

/// Some path of `paths` names `name`.
pub open spec fn any_path_names(paths: Seq<Seq<char>>, name: Seq<char>) -> bool {
    exists|j: int| 0 <= j < paths.len() && path_names(#[trigger] paths[j], name)
}

impl ProcDebugArgs {
    /// A query that asks for nothing: no call passes it.
    pub fn new() -> (q: ProcDebugArgs)
        ensures
            !q.all,
            q.not@.len() == 0,
            q.path@.len() == 0,
            q.queries@.len() == 0,
            q.depth is None,
            q.count is None,
            !q.verbose,
    {
        ProcDebugArgs {
            all: false,
            not: Vec::new(),
            path: Vec::new(),
            queries: Vec::new(),
            depth: None,
            count: None,
            verbose: false,
        }
    }

    /// The largest sequence number that is shown.
    pub open spec fn limit(&self) -> nat {
        match self.count {
            Some(c) => c as nat,
            None => usize::MAX as nat,
        }
    }

    /// The depth at which output is cut: the largest there is when the
    /// whole output was asked for, else the depth asked for, else the
    /// default.
    pub open spec fn spec_cut_depth(&self) -> usize {
        if self.verbose {
            usize::MAX
        } else {
            match self.depth {
                Some(d) => d,
                None => DEFAULT_DEPTH,
            }
        }
    }

    /// The depth at which output is cut.
    #[verifier::when_used_as_spec(spec_cut_depth)]
    pub fn cut_depth(&self) -> (d: usize)
        ensures
            d == self.spec_cut_depth(),
    {
        if self.verbose {
            usize::MAX
        } else {
            match self.depth {
                Some(d) => d,
                None => DEFAULT_DEPTH,
            }
        }
    }
}

/// Whether the call `e`, the `n`-th of the run, passes the query `q`.
///
/// In this order: a call beyond the limit fails; under match-all it passes;
/// one that an exclusion hits fails; one that a path names passes; one that
/// a free-text term hits passes; any other fails.
pub open spec fn passes(e: Entry, q: ProcDebugArgs, n: nat) -> bool {
    if n > q.limit() {
        false
    } else if q.all {
        true
    } else if any_occurs(e.searched(), texts(q.not@)) {
        false
    } else if any_path_names(texts(q.path@), e.qualified_name()) {
        true
    } else {
        any_occurs(e.searched(), texts(q.queries@))
    }
}

fn occurs_in_some(field: &Vec<char>, terms: &Vec<String>) -> (r: bool)
    ensures
        r == exists|j: int| 0 <= j < terms@.len() && occurs_in(field@, #[trigger] texts(terms@)[j]),
{
    let mut j: usize = 0;
    while j < terms.len()
        invariant
            j <= terms.len(),
            forall|k: int| 0 <= k < j ==> !occurs_in(field@, #[trigger] texts(terms@)[k]),
        decreases terms.len() - j,
    {
        let term = chars_of(terms[j].as_str());
        if contains_chars(field, &term) {
            assert(occurs_in(field@, texts(terms@)[j as int]));
            return true;
        }
        j += 1;
    }
    false
}

fn hit(e: &Entry, terms: &Vec<String>) -> (r: bool)
    ensures
        r == any_occurs(e.searched(), texts(terms@)),
{
    let ghost f = e.searched();
    let ghost t = texts(terms@);
    let label = chars_of(e.label.as_str());
    let file = chars_of(e.file.as_str());
    let modpath = chars_of(e.modpath.as_str());
    let name = chars_of(e.macro_name.as_str());
    let r0 = occurs_in_some(&label, terms);
    let r1 = occurs_in_some(&file, terms);
    let r2 = occurs_in_some(&modpath, terms);
    let r3 = occurs_in_some(&name, terms);
    proof {
        assert(f[0] == label@ && f[1] == file@ && f[2] == modpath@ && f[3] == name@);
        if r0 {
            let j = choose|j: int| 0 <= j < terms@.len() && occurs_in(label@, #[trigger] t[j]);
            assert(occurs_in(f[0], t[j]));
        }
        if r1 {
            let j = choose|j: int| 0 <= j < terms@.len() && occurs_in(file@, #[trigger] t[j]);
            assert(occurs_in(f[1], t[j]));
        }
        if r2 {
            let j = choose|j: int| 0 <= j < terms@.len() && occurs_in(modpath@, #[trigger] t[j]);
            assert(occurs_in(f[2], t[j]));
        }
        if r3 {
            let j = choose|j: int| 0 <= j < terms@.len() && occurs_in(name@, #[trigger] t[j]);
            assert(occurs_in(f[3], t[j]));
        }
        if any_occurs(f, t) {
            let (i, j) = choose|i: int, j: int|
                0 <= i < f.len() && 0 <= j < t.len() && occurs_in(
                    #[trigger] f[i],
                    #[trigger] t[j],
                );
            assert(i == 0 || i == 1 || i == 2 || i == 3);
        }
    }
    r0 || r1 || r2 || r3
}

fn names(m: &str, name: &str) -> (r: bool)
    ensures
        r == path_names(m@, name@),
{
    if same_text(m, name) {
        return true;
    }
    let prefix = followed_by(m, "::");
    if starts_with(name, prefix.as_str()) {
        return true;
    }
    let suffix = followed_by("::", m);
    ends_with(name, suffix.as_str())
}

fn named_by_some(paths: &Vec<String>, name: &str) -> (r: bool)
    ensures
        r == any_path_names(texts(paths@), name@),
{
    let mut j: usize = 0;
    while j < paths.len()
        invariant
            j <= paths.len(),
            forall|k: int| 0 <= k < j ==> !path_names(#[trigger] texts(paths@)[k], name@),
        decreases paths.len() - j,
    {
        if names(paths[j].as_str(), name) {
            assert(path_names(texts(paths@)[j as int], name@));
            return true;
        }
        j += 1;
    }
    false
}

impl Entry {
    /// Decides whether this call, the `n`-th of the run, is shown under
    /// `args`.
    pub fn check_filter(&self, args: &ProcDebugArgs, n: usize) -> (r: bool)
        ensures
            r == passes(*self, *args, n as nat),
    {
        let limit = match args.count {
            Some(c) => c,
            None => usize::MAX,
        };
        if n > limit {
            return false;
        }
        if args.all {
            return true;
        }
        if hit(self, &args.not) {
            return false;
        }
        let scoped = followed_by(self.modpath.as_str(), "::");
        let pattern = followed_by(scoped.as_str(), self.macro_name.as_str());
        if named_by_some(&args.path, pattern.as_str()) {
            return true;
        }
        hit(self, &args.queries)
    }
}

/// Under match-all with no limit, every call passes, whatever else the
/// query and the call hold.
pub proof fn lemma_match_all_passes(e: Entry, q: ProcDebugArgs, n: nat)
    requires
        q.all,
        q.count is None,
        n <= usize::MAX,
    ensures
        passes(e, q, n),
{
}

/// Without match-all, a query with neither paths nor free-text terms shows
/// nothing.
pub proof fn lemma_empty_query_shows_nothing(e: Entry, q: ProcDebugArgs, n: nat)
    requires
        !q.all,
        q.path@.len() == 0,
        q.queries@.len() == 0,
    ensures
        !passes(e, q, n),
{
}

/// No call beyond the limit passes.
pub proof fn lemma_beyond_limit_fails(e: Entry, q: ProcDebugArgs, n: nat)
    requires
        q.count matches Some(c) && n > c,
    ensures
        !passes(e, q, n),
{
}

} // verus!
