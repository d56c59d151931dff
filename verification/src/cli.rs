//! The options of the command, and what is made of them: the query that is
//! handed to the capture, the options that are handed on to the build, and
//! the names of the packages whose macros are asked for.

use vstd::prelude::*;
use crate::text::{begins_with, chars_of, lemma_texts_push, push_str, starts_with, string_of, texts};

verus! {

/// The options of the command, as they were given.
#[derive(Debug)]
pub struct Arguments {
    pub manifest_path: Option<String>,
    pub package: Vec<String>,
    pub lib: bool,
    pub bins: bool,
    pub bin: Vec<String>,
    pub examples: bool,
    pub example: Vec<String>,
    pub tests: bool,
    pub test: Vec<String>,
    pub benches: bool,
    pub bench: Vec<String>,
    pub features: Option<String>,
    pub all_features: bool,
    pub no_default_features: bool,
    pub version: bool,
    pub target: Option<String>,
    pub path: Vec<String>,
    pub verbose: bool,
    pub keywords: Vec<String>,
}

/// Each item between double quotes, with `lead` before the opening quote.
pub open spec fn quoted_each(lead: Seq<char>, items: Seq<Seq<char>>) -> Seq<char>
    decreases items.len(),
{
    if items.len() == 0 {
        Seq::empty()
    } else {
        quoted_each(lead, items.drop_last()) + lead + seq!['"'] + items.last() + seq!['"']
    }
}

/// The option `name`, where it is switched on.
pub open spec fn switch(name: Seq<char>, on: bool) -> Seq<Seq<char>> {
    if on {
        seq![name]
    } else {
        Seq::empty()
    }
}

/// The option `name` with its value, where it has one.
pub open spec fn valued(name: Seq<char>, value: Option<String>) -> Seq<Seq<char>> {
    match value {
        Some(v) => seq![name, v@],
        None => Seq::empty(),
    }
}

/// The option `name` once for each value, each time followed by the value.
pub open spec fn repeated(name: Seq<char>, values: Seq<Seq<char>>) -> Seq<Seq<char>>
    decreases values.len(),
{
    if values.len() == 0 {
        Seq::empty()
    } else {
        repeated(name, values.drop_last()) + seq![name, values.last()]
    }
}

/// The characters of `s` before its first colon; all of `s` where it has
/// none.
pub open spec fn before_colon(s: Seq<char>) -> Seq<char>
    decreases s.len(),
{
    if s.len() == 0 || s[0] == ':' {
        Seq::empty()
    } else {
        seq![s[0]] + before_colon(s.skip(1))
    }
}

/// For each path that starts at the root, with `::`, the name of the
/// package that it starts in: what stands between that `::` and the next
/// colon. Other paths name no package.
pub open spec fn root_packages(paths: Seq<Seq<char>>) -> Seq<Seq<char>>
    decreases paths.len(),
{
    if paths.len() == 0 {
        Seq::empty()
    } else if begins_with(paths.last(), "::"@) {
        root_packages(paths.drop_last()).push(before_colon(paths.last().skip(2)))
    } else {
        root_packages(paths.drop_last())
    }
}

proof fn lemma_concat_assoc(a: Seq<Seq<char>>, b: Seq<Seq<char>>, c: Seq<Seq<char>>)
    ensures
        (a + b) + c == a + (b + c),
{
    assert((a + b) + c =~= a + (b + c));
}

fn push_arg(args: &mut Vec<String>, s: &str)
    ensures
        texts(final(args)@) == texts(old(args)@).push(s@),
{
    let owned = s.to_owned();
    proof {
        lemma_texts_push(args@, owned);
    }
    args.push(owned);
}

fn push_switch(args: &mut Vec<String>, name: &str, on: bool)
    ensures
        texts(final(args)@) == texts(old(args)@) + switch(name@, on),
{
    if on {
        push_arg(args, name);
    }
    assert(texts(args@) =~= texts(old(args)@) + switch(name@, on));
}

fn push_valued(args: &mut Vec<String>, name: &str, value: &Option<String>)
    ensures
        texts(final(args)@) == texts(old(args)@) + valued(name@, *value),
{
    match value {
        Some(v) => {
            push_arg(args, name);
            push_arg(args, v.as_str());
        },
        None => {},
    }
    assert(texts(args@) =~= texts(old(args)@) + valued(name@, *value));
}

fn push_repeated(args: &mut Vec<String>, name: &str, values: &Vec<String>)
    ensures
        texts(final(args)@) == texts(old(args)@) + repeated(name@, texts(values@)),
{
    let ghost all = texts(values@);
    let mut i: usize = 0;
    assert(all.take(0) =~= Seq::<Seq<char>>::empty());
    assert(texts(args@) =~= texts(old(args)@) + repeated(name@, all.take(0)));
    while i < values.len()
        invariant
            i <= values.len(),
            all == texts(values@),
            texts(args@) == texts(old(args)@) + repeated(name@, all.take(i as int)),
        decreases values.len() - i,
    {
        let ghost before = texts(args@);
        push_arg(args, name);
        push_arg(args, values[i].as_str());
        proof {
            let next = all.take(i + 1);
            assert(next.drop_last() =~= all.take(i as int));
            assert(next.last() == values@[i as int]@);
            assert(texts(args@) =~= before + seq![name@, values@[i as int]@]);
            assert(texts(args@) =~= texts(old(args)@) + repeated(name@, next));
        }
        i += 1;
    }
    assert(all.take(values.len() as int) =~= all);
}

fn push_quoted_each(out: &mut Vec<char>, lead: &str, items: &Vec<String>)
    ensures
        final(out)@ == old(out)@ + quoted_each(lead@, texts(items@)),
{
    let ghost all = texts(items@);
    let mut i: usize = 0;
    assert(all.take(0) =~= Seq::<Seq<char>>::empty());
    assert(out@ =~= old(out)@ + quoted_each(lead@, all.take(0)));
    while i < items.len()
        invariant
            i <= items.len(),
            all == texts(items@),
            out@ == old(out)@ + quoted_each(lead@, all.take(i as int)),
        decreases items.len() - i,
    {
        let ghost before = out@;
        push_str(out, lead);
        out.push('"');
        push_str(out, items[i].as_str());
        out.push('"');
        proof {
            let next = all.take(i + 1);
            assert(next.drop_last() =~= all.take(i as int));
            assert(next.last() == items@[i as int]@);
            assert(out@ =~= before + lead@ + seq!['"'] + items@[i as int]@ + seq!['"']);
            assert(out@ =~= old(out)@ + quoted_each(lead@, next));
        }
        i += 1;
    }
    assert(all.take(items.len() as int) =~= all);
}

fn package_of(path: &Vec<char>) -> (out: String)
    requires
        path@.len() >= 2,
    ensures
        out@ == before_colon(path@.skip(2)),
{
    let mut out: Vec<char> = Vec::new();
    let mut i: usize = 2;
    let ghost tail = path@.skip(2);
    assert(tail.skip(0) =~= tail);
    assert(out@ + before_colon(tail) =~= before_colon(tail));
    while i < path.len() && path[i] != ':'
        invariant
            2 <= i <= path.len(),
            tail == path@.skip(2),
            out@ + before_colon(tail.skip(i - 2)) == before_colon(tail),
        decreases path.len() - i,
    {
        let ghost cur = tail.skip(i - 2);
        let ghost done = out@;
        out.push(path[i]);
        proof {
            assert(cur[0] == path@[i as int]);
            assert(cur.skip(1) =~= tail.skip(i - 1));
            assert(out@ + before_colon(tail.skip(i - 1)) =~= done + before_colon(cur));
        }
        i += 1;
    }
    proof {
        let cur = tail.skip(i - 2);
        if i < path.len() {
            assert(cur[0] == path@[i as int]);
        }
        assert(before_colon(cur) =~= Seq::<char>::empty());
        assert(out@ + Seq::<char>::empty() =~= out@);
    }
    string_of(&out)
}

impl Arguments {
    /// The query for the capture, as one line of options: show every call;
    /// each path of the command as a path of the query; the whole output if
    /// the command asks for it; each keyword as a free-text term.
    pub open spec fn query_line(&self) -> Seq<char> {
        "-a"@ + quoted_each(" --path "@, texts(self.path@)) + (if self.verbose {
            " -v"@
        } else {
            Seq::empty()
        }) + quoted_each(" "@, texts(self.keywords@))
    }

    /// The options that the build gets from the command.
    pub open spec fn forwarded(&self) -> Seq<Seq<char>> {
        valued("--manifest-path"@, self.manifest_path) + repeated(
            "--package"@,
            texts(self.package@),
        ) + switch("--lib"@, self.lib) + switch("--bins"@, self.bins) + repeated(
            "--bin"@,
            texts(self.bin@),
        ) + repeated(
            "--example"@,
            texts(self.example@),
        ) + switch("--tests"@, self.tests) + switch("--benches"@, self.benches) + switch(
            "--examples"@,
            self.examples,
        ) + repeated("--test"@, texts(self.test@)) + repeated("--bench"@, texts(self.bench@))
            + valued("--features"@, self.features) + switch("--all-features"@, self.all_features)
            + switch("--no-default-features"@, self.no_default_features) + valued(
            "--target"@,
            self.target,
        )
    }

    /// The command asks for targets that are only built for development:
    /// tests, examples or benchmarks, all of them or one by name.
    pub open spec fn wants_dev_units(&self) -> bool {
        ||| self.test@.len() > 0
        ||| self.example@.len() > 0
        ||| self.bench@.len() > 0
        ||| self.tests
        ||| self.examples
        ||| self.benches
    }

    /// The query for the capture, as one line of options.
    pub fn get_env(&self) -> (ret: String)
        ensures
            ret@ == self.query_line(),
    {
        let mut out: Vec<char> = Vec::new();
        push_str(&mut out, "-a");
        push_quoted_each(&mut out, " --path ", &self.path);
        if self.verbose {
            push_str(&mut out, " -v");
        }
        push_quoted_each(&mut out, " ", &self.keywords);
        assert(out@ =~= self.query_line());
        string_of(&out)
    }

    /// Appends to `args` the options that the build gets from the command.
    pub fn extend_args(&self, args: &mut Vec<String>)
        ensures
            texts(final(args)@) == texts(old(args)@) + self.forwarded(),
    {
        let ghost start = texts(args@);
        push_valued(args, "--manifest-path", &self.manifest_path);
        let ghost mut sent: Seq<Seq<char>> = valued("--manifest-path"@, self.manifest_path);
        push_repeated(args, "--package", &self.package);
        proof {
            lemma_concat_assoc(start, sent, repeated("--package"@, texts(self.package@)));
            sent = sent + repeated("--package"@, texts(self.package@));
        }
        push_switch(args, "--lib", self.lib);
        proof {
            lemma_concat_assoc(start, sent, switch("--lib"@, self.lib));
            sent = sent + switch("--lib"@, self.lib);
        }
        push_switch(args, "--bins", self.bins);
        proof {
            lemma_concat_assoc(start, sent, switch("--bins"@, self.bins));
            sent = sent + switch("--bins"@, self.bins);
        }
        push_repeated(args, "--bin", &self.bin);
        proof {
            lemma_concat_assoc(start, sent, repeated("--bin"@, texts(self.bin@)));
            sent = sent + repeated("--bin"@, texts(self.bin@));
        }
        push_repeated(args, "--example", &self.example);
        proof {
            lemma_concat_assoc(start, sent, repeated("--example"@, texts(self.example@)));
            sent = sent + repeated("--example"@, texts(self.example@));
        }
        push_switch(args, "--tests", self.tests);
        proof {
            lemma_concat_assoc(start, sent, switch("--tests"@, self.tests));
            sent = sent + switch("--tests"@, self.tests);
        }
        push_switch(args, "--benches", self.benches);
        proof {
            lemma_concat_assoc(start, sent, switch("--benches"@, self.benches));
            sent = sent + switch("--benches"@, self.benches);
        }
        push_switch(args, "--examples", self.examples);
        proof {
            lemma_concat_assoc(start, sent, switch("--examples"@, self.examples));
            sent = sent + switch("--examples"@, self.examples);
        }
        push_repeated(args, "--test", &self.test);
        proof {
            lemma_concat_assoc(start, sent, repeated("--test"@, texts(self.test@)));
            sent = sent + repeated("--test"@, texts(self.test@));
        }
        push_repeated(args, "--bench", &self.bench);
        proof {
            lemma_concat_assoc(start, sent, repeated("--bench"@, texts(self.bench@)));
            sent = sent + repeated("--bench"@, texts(self.bench@));
        }
        push_valued(args, "--features", &self.features);
        proof {
            lemma_concat_assoc(start, sent, valued("--features"@, self.features));
            sent = sent + valued("--features"@, self.features);
        }
        push_switch(args, "--all-features", self.all_features);
        proof {
            lemma_concat_assoc(start, sent, switch("--all-features"@, self.all_features));
            sent = sent + switch("--all-features"@, self.all_features);
        }
        push_switch(args, "--no-default-features", self.no_default_features);
        proof {
            lemma_concat_assoc(start, sent, switch("--no-default-features"@, self.no_default_features));
            sent = sent + switch("--no-default-features"@, self.no_default_features);
        }
        push_valued(args, "--target", &self.target);
        proof {
            lemma_concat_assoc(start, sent, valued("--target"@, self.target));
            sent = sent + valued("--target"@, self.target);
        }
    }

    /// Whether the command asks for targets that are only built for
    /// development.
    pub fn needs_dev_units(&self) -> (r: bool)
        ensures
            r == self.wants_dev_units(),
    {
        self.test.len() > 0 || self.example.len() > 0 || self.bench.len() > 0 || self.tests
            || self.examples || self.benches
    }

    /// The names of the packages that the paths of the command start in.
    pub fn proc_filter(&self) -> (out: Vec<String>)
        ensures
            texts(out@) == root_packages(texts(self.path@)),
    {
        let ghost all = texts(self.path@);
        let mut out: Vec<String> = Vec::new();
        let mut i: usize = 0;
        assert(all.take(0) =~= Seq::<Seq<char>>::empty());
        assert(texts(out@) =~= root_packages(all.take(0)));
        while i < self.path.len()
            invariant
                i <= self.path.len(),
                all == texts(self.path@),
                texts(out@) == root_packages(all.take(i as int)),
            decreases self.path.len() - i,
        {
            let ghost next = all.take(i + 1);
            proof {
                assert(next.drop_last() =~= all.take(i as int));
                assert(next.last() == self.path@[i as int]@);
            }
            if starts_with(self.path[i].as_str(), "::") {
                let cs = chars_of(self.path[i].as_str());
                proof {
                    reveal_strlit("::");
                    assert("::"@.len() == 2);
                }
                let name = package_of(&cs);
                proof {
                    lemma_texts_push(out@, name);
                }
                out.push(name);
            }
            i += 1;
        }
        assert(all.take(self.path.len() as int) =~= all);
        out
    }
}

} // verus!
