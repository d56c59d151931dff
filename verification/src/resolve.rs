//! Which packages are instrumented: those that define macros, without the
//! support library and everything that the support library depends on.

use vstd::prelude::*;
use crate::text::{same_text, texts};

verus! {

/// What a target of a package is built as.
#[derive(Clone, Copy, Debug, PartialEq, Eq, Structural)]
pub enum TargetKind {
    Lib,
    Bin,
    Example,
    Test,
    Bench,
}

/// One target that a package declares.
#[derive(Debug)]
pub struct Target {
    pub kind: TargetKind,
    pub name: String,
    /// Whether the target defines macros for other packages to call.
    pub proc_macro: bool,
    /// The source file that the target is built from.
    pub src_path: String,
}

/// A package of the graph. Its dependencies are indices into the graph's
/// list of packages.
#[derive(Debug)]
pub struct Package {
    pub name: String,
    pub version: String,
    pub source: String,
    pub manifest_path: String,
    pub targets: Vec<Target>,
    pub deps: Vec<usize>,
}

/// The packages of a build and the dependencies between them. A package is
/// known by its index.
#[derive(Debug)]
pub struct Graph {
    pub packages: Vec<Package>,
}

/// The library target among `targets`: the first of kind `Lib`.
pub open spec fn library_of(targets: Seq<Target>) -> Option<Target>
    decreases targets.len(),
{
    if targets.len() == 0 {
        None
    } else if targets[0].kind == TargetKind::Lib {
        Some(targets[0])
    } else {
        library_of(targets.skip(1))
    }
}

impl Package {
    /// The package's library defines macros.
    pub open spec fn provides_macros(&self) -> bool {
        library_of(self.targets@) matches Some(t) && t.proc_macro
    }

    /// The index of the package's library target, if it has one.
    pub fn library(&self) -> (r: Option<usize>)
        ensures
            match r {
                Some(i) => i < self.targets@.len() && library_of(self.targets@) == Some(
                    self.targets@[i as int],
                ),
                None => library_of(self.targets@) is None,
            },
    {
        let mut i: usize = 0;
        assert(self.targets@.skip(0) =~= self.targets@);
        while i < self.targets.len()
            invariant
                i <= self.targets.len(),
                library_of(self.targets@.skip(i as int)) == library_of(self.targets@),
            decreases self.targets.len() - i,
        {
            if matches!(self.targets[i].kind, TargetKind::Lib) {
                return Some(i);
            }
            assert(self.targets@.skip(i as int).skip(1) =~= self.targets@.skip(i + 1));
            i += 1;
        }
        None
    }

    /// Whether the package's library defines macros.
    pub fn is_macro_provider(&self) -> (r: bool)
        ensures
            r == self.provides_macros(),
    {
        match self.library() {
            Some(i) => self.targets[i].proc_macro,
            None => false,
        }
    }
}

impl Graph {
    /// The number of packages.
    pub open spec fn size(&self) -> int {
        self.packages@.len() as int
    }

    /// Every dependency is a package of the graph.
    pub open spec fn well_formed(&self) -> bool {
        forall|a: int, k: int|
            0 <= a < self.size() && 0 <= k < self.packages@[a].deps@.len()
                ==> #[trigger] self.packages@[a].deps@[k] < self.size()
    }

    /// Package `a` depends on package `b` directly.
    pub open spec fn edge(&self, a: int, b: int) -> bool {
        &&& 0 <= a < self.size()
        &&& exists|k: int|
            0 <= k < self.packages@[a].deps@.len() && #[trigger] self.packages@[a].deps@[k] == b
    }

    /// `p` is a chain of packages, each depending directly on the next.
    pub open spec fn chain(&self, p: Seq<int>) -> bool {
        &&& forall|k: int| 0 <= k < p.len() ==> 0 <= #[trigger] p[k] < self.size()
        &&& forall|k: int| 0 <= k < p.len() - 1 ==> self.edge(#[trigger] p[k], p[k + 1])
    }

    /// Package `t` is one of `seeds` or a dependency of one, direct or
    /// through other packages.
    pub open spec fn reaches(&self, seeds: Set<int>, t: int) -> bool {
        exists|p: Seq<int>|
            #![trigger self.chain(p)]
            self.chain(p) && p.len() > 0 && seeds.contains(p[0]) && p.last() == t
    }

    /// The packages that are called `name`.
    pub open spec fn named(&self, name: Seq<char>) -> Set<int> {
        Set::new(|i: int| 0 <= i < self.size() && self.packages@[i].name@ == name)
    }

    /// Whether every dependency is a package of the graph.
    pub fn check(&self) -> (r: bool)
        ensures
            r == self.well_formed(),
    {
        let n = self.packages.len();
        let mut a: usize = 0;
        while a < n
            invariant
                a <= n,
                n == self.packages@.len(),
                forall|x: int, k: int|
                    0 <= x < a && 0 <= k < self.packages@[x].deps@.len()
                        ==> #[trigger] self.packages@[x].deps@[k] < self.size(),
            decreases n - a,
        {
            let deps = &self.packages[a].deps;
            let mut k: usize = 0;
            while k < deps.len()
                invariant
                    k <= deps.len(),
                    a < n,
                    n == self.packages@.len(),
                    deps == &self.packages@[a as int].deps,
                    forall|j: int| 0 <= j < k ==> #[trigger] deps@[j] < n,
                decreases deps.len() - k,
            {
                if deps[k] >= n {
                    assert(!(self.packages@[a as int].deps@[k as int] < self.size()));
                    return false;
                }
                k += 1;
            }
            a += 1;
        }
        true
    }
}

/// The packages that `marks` marks.
pub open spec fn marked(marks: Seq<bool>) -> Set<int> {
    Set::new(|i: int| 0 <= i < marks.len() && marks[i])
}

/// The members of a list of package indices.
pub open spec fn listed(pids: Seq<usize>) -> Set<int> {
    Set::new(|i: int| exists|k: int| 0 <= k < pids.len() && #[trigger] pids[k] == i)
}

/// How many packages `marks` marks.
pub open spec fn count_marked(marks: Seq<bool>) -> nat
    decreases marks.len(),
{
    if marks.len() == 0 {
        0
    } else {
        count_marked(marks.drop_last()) + if marks.last() {
            1nat
        } else {
            0nat
        }
    }
}

proof fn lemma_count_bounded(marks: Seq<bool>)
    ensures
        count_marked(marks) <= marks.len(),
    decreases marks.len(),
{
    if marks.len() > 0 {
        lemma_count_bounded(marks.drop_last());
    }
}

proof fn lemma_count_grows(a: Seq<bool>, b: Seq<bool>, strict: bool)
    requires
        a.len() == b.len(),
        forall|i: int| 0 <= i < a.len() ==> (a[i] ==> b[i]),
        strict ==> exists|x: int| 0 <= x < a.len() && b[x] && !a[x],
    ensures
        count_marked(a) <= count_marked(b),
        strict ==> count_marked(a) < count_marked(b),
    decreases a.len(),
{
    if a.len() > 0 {
        let a0 = a.drop_last();
        let b0 = b.drop_last();
        if strict {
            let x = choose|x: int| 0 <= x < a.len() && b[x] && !a[x];
            if x == a.len() - 1 {
                lemma_count_grows(a0, b0, false);
            } else {
                assert(b0[x] && !a0[x]);
                lemma_count_grows(a0, b0, true);
            }
        } else {
            lemma_count_grows(a0, b0, false);
        }
    }
}

/// A seed reaches itself.
proof fn lemma_seed_reaches(g: Graph, seeds: Set<int>, s: int)
    requires
        seeds.contains(s),
        0 <= s < g.size(),
    ensures
        g.reaches(seeds, s),
{
    let p = seq![s];
    assert(g.chain(p));
    assert(p.last() == s);
}

/// What a reached package depends on is reached.
proof fn lemma_step_reaches(g: Graph, seeds: Set<int>, a: int, b: int)
    requires
        g.reaches(seeds, a),
        g.edge(a, b),
        0 <= b < g.size(),
    ensures
        g.reaches(seeds, b),
{
    let p = choose|p: Seq<int>|
        #![trigger g.chain(p)]
        g.chain(p) && p.len() > 0 && seeds.contains(p[0]) && p.last() == a;
    let q = p.push(b);
    assert forall|k: int| 0 <= k < q.len() - 1 implies g.edge(#[trigger] q[k], q[k + 1]) by {
        if k < p.len() - 1 {
            assert(q[k] == p[k] && q[k + 1] == p[k + 1]);
        }
    }
    assert(g.chain(q));
    assert(q.last() == b && q[0] == p[0]);
}

/// A set that holds the seeds and, with each package, what the package
/// depends on, holds every package that the seeds reach.
proof fn lemma_closed_holds_reached(g: Graph, seeds: Set<int>, closed: Set<int>, t: int)
    requires
        forall|s: int| seeds.contains(s) && 0 <= s < g.size() ==> closed.contains(s),
        forall|a: int, b: int| closed.contains(a) && g.edge(a, b) ==> closed.contains(b),
        g.reaches(seeds, t),
    ensures
        closed.contains(t),
{
    let p = choose|p: Seq<int>|
        #![trigger g.chain(p)]
        g.chain(p) && p.len() > 0 && seeds.contains(p[0]) && p.last() == t;
    lemma_chain_stays(g, closed, p, p.len() - 1);
}

proof fn lemma_chain_stays(g: Graph, closed: Set<int>, p: Seq<int>, k: int)
    requires
        g.chain(p),
        0 <= k < p.len(),
        closed.contains(p[0]),
        forall|a: int, b: int| closed.contains(a) && g.edge(a, b) ==> closed.contains(b),
    ensures
        closed.contains(p[k]),
    decreases k,
{
    if k > 0 {
        lemma_chain_stays(g, closed, p, k - 1);
        assert(g.edge(p[k - 1], p[k]));
    }
}

fn first_marked(marks: &Vec<bool>) -> (r: Option<usize>)
    ensures
        match r {
            Some(i) => i < marks@.len() && marks@[i as int],
            None => forall|i: int| 0 <= i < marks@.len() ==> !marks@[i],
        },
{
    let mut i: usize = 0;
    while i < marks.len()
        invariant
            i <= marks.len(),
            forall|j: int| 0 <= j < i ==> !marks@[j],
        decreases marks.len() - i,
    {
        if marks[i] {
            return Some(i);
        }
        i += 1;
    }
    None
}

fn unmarked(n: usize) -> (marks: Vec<bool>)
    ensures
        marks@.len() == n,
        forall|i: int| 0 <= i < n ==> !marks@[i],
{
    let mut marks: Vec<bool> = Vec::new();
    while marks.len() < n
        invariant
            marks@.len() <= n,
            forall|i: int| 0 <= i < marks@.len() ==> !marks@[i],
        decreases n - marks@.len(),
    {
        marks.push(false);
    }
    marks
}

/// The dependencies of the packages of `from`, marked.
fn dependencies_of(graph: &Graph, from: &Vec<bool>, Ghost(seeds): Ghost<Set<int>>) -> (ret: Vec<
    bool,
>)
    requires
        graph.well_formed(),
        from@.len() == graph.size(),
        forall|x: int| 0 <= x < from@.len() && from@[x] ==> graph.reaches(seeds, x),
    ensures
        ret@.len() == graph.size(),
        forall|y: int| 0 <= y < ret@.len() && ret@[y] ==> graph.reaches(seeds, y),
        forall|x: int, y: int| 0 <= x < from@.len() && from@[x] && graph.edge(x, y) ==> ret@[y],
{
    let n = graph.packages.len();
    let mut ret = unmarked(n);
    let mut x: usize = 0;
    while x < n
        invariant
            x <= n,
            n == graph.size(),
            graph.well_formed(),
            from@.len() == n,
            ret@.len() == n,
            forall|x: int| 0 <= x < from@.len() && from@[x] ==> graph.reaches(seeds, x),
            forall|y: int| 0 <= y < n && ret@[y] ==> graph.reaches(seeds, y),
            forall|a: int, b: int| 0 <= a < x && from@[a] && graph.edge(a, b) ==> ret@[b],
        decreases n - x,
    {
        if from[x] {
            let deps = &graph.packages[x].deps;
            let mut k: usize = 0;
            while k < deps.len()
                invariant
                    k <= deps.len(),
                    x < n,
                    n == graph.size(),
                    graph.well_formed(),
                    ret@.len() == n,
                    deps == &graph.packages@[x as int].deps,
                    graph.reaches(seeds, x as int),
                    forall|y: int| 0 <= y < n && ret@[y] ==> graph.reaches(seeds, y),
                    forall|a: int, b: int| 0 <= a < x && from@[a] && graph.edge(a, b) ==> ret@[b],
                    forall|j: int| 0 <= j < k ==> ret@[#[trigger] deps@[j] as int],
                decreases deps.len() - k,
            {
                let d = deps[k];
                proof {
                    assert(graph.packages@[x as int].deps@[k as int] < graph.size());
                    assert(graph.edge(x as int, d as int));
                    lemma_step_reaches(*graph, seeds, x as int, d as int);
                }
                ret.set(d, true);
                k += 1;
            }
        }
        x += 1;
    }
    ret
}

/// The packages that the packages of `pids` reach: they themselves and
/// what they depend on, directly or through other packages. The result has
/// one mark for each package of the graph, set where the package is
/// reached. An index in `pids` that is no package of the graph reaches
/// nothing.
///
/// The set grows round by round until a round adds nothing, so a cycle
/// among the dependencies does not keep it from ending, and neither the
/// order of `pids` nor a repetition in it changes the result.
pub fn resolve_deps(pids: &Vec<usize>, graph: &Graph) -> (resolved: Vec<bool>)
    requires
        graph.well_formed(),
    ensures
        resolved@.len() == graph.size(),
        forall|t: int|
            0 <= t < graph.size() ==> (resolved@[t] <==> graph.reaches(listed(pids@), t)),
{
    let n = graph.packages.len();
    let ghost seeds = listed(pids@);
    let mut unresolved = unmarked(n);
    let mut resolved = unmarked(n);
    let mut k: usize = 0;
    while k < pids.len()
        invariant
            k <= pids.len(),
            n == graph.size(),
            seeds == listed(pids@),
            unresolved@.len() == n,
            forall|x: int| 0 <= x < n && unresolved@[x] ==> graph.reaches(seeds, x),
            forall|j: int| 0 <= j < k && pids@[j] < n ==> unresolved@[pids@[j] as int],
        decreases pids.len() - k,
    {
        let p = pids[k];
        if p < n {
            proof {
                assert(seeds.contains(p as int));
                lemma_seed_reaches(*graph, seeds, p as int);
            }
            unresolved.set(p, true);
        }
        k += 1;
    }
    loop
        invariant
            n == graph.size(),
            graph.well_formed(),
            seeds == listed(pids@),
            unresolved@.len() == n,
            resolved@.len() == n,
            forall|x: int| 0 <= x < n && unresolved@[x] ==> graph.reaches(seeds, x),
            forall|x: int| 0 <= x < n && resolved@[x] ==> graph.reaches(seeds, x),
            forall|x: int| 0 <= x < n && resolved@[x] ==> !unresolved@[x],
            forall|s: int|
                seeds.contains(s) && 0 <= s < n ==> resolved@[s] || unresolved@[s],
            forall|a: int, b: int|
                0 <= a < n && resolved@[a] && graph.edge(a, b) ==> resolved@[b] || unresolved@[b],
        decreases n - count_marked(resolved@),
    {
        let witness = first_marked(&unresolved);
        if witness.is_none() {
            proof {
                let closed = marked(resolved@);
                assert forall|a: int, b: int| closed.contains(a) && graph.edge(a, b) implies closed.contains(
                    b,
                ) by {
                    let j = choose|j: int|
                        0 <= j < graph.packages@[a].deps@.len()
                            && #[trigger] graph.packages@[a].deps@[j] == b;
                    assert(graph.packages@[a].deps@[j] < graph.size());
                }
                assert forall|t: int| 0 <= t < n && graph.reaches(seeds, t) implies resolved@[t] by {
                    lemma_closed_holds_reached(*graph, seeds, closed, t);
                }
            }
            return resolved;
        }
        let ret = dependencies_of(graph, &unresolved, Ghost(seeds));
        let ghost before = resolved@;
        let ghost front = unresolved@;
        let mut i: usize = 0;
        while i < n
            invariant
                i <= n,
                resolved@.len() == n,
                unresolved@.len() == n,
                ret@.len() == n,
                before.len() == n,
                front.len() == n,
                forall|x: int| 0 <= x < i ==> resolved@[x] == (before[x] || front[x]),
                forall|x: int| i <= x < n ==> resolved@[x] == before[x],
                forall|x: int| 0 <= x < i ==> unresolved@[x] == (ret@[x] && !resolved@[x]),
                forall|x: int| i <= x < n ==> unresolved@[x] == front[x],
            decreases n - i,
        {
            if unresolved[i] {
                resolved.set(i, true);
            }
            let next = ret[i] && !resolved[i];
            unresolved.set(i, next);
            i += 1;
        }
        proof {
            let w = witness.unwrap() as int;
            assert(resolved@[w] && !before[w]);
            lemma_count_grows(before, resolved@, true);
            lemma_count_bounded(resolved@);
            assert forall|a: int, b: int|
                0 <= a < n && resolved@[a] && graph.edge(a, b) implies resolved@[b]
                || unresolved@[b] by {
                let j = choose|j: int|
                    0 <= j < graph.packages@[a].deps@.len()
                        && #[trigger] graph.packages@[a].deps@[j] == b;
                assert(graph.packages@[a].deps@[j] < graph.size());
                if before[a] {
                    assert(before[b] || front[b]);
                } else {
                    assert(front[a]);
                    assert(ret@[b]);
                }
            }
        }
    }
}

/// The name filter lets `name` through: it is empty, or holds the name.
pub open spec fn lets_through(filter: Seq<Seq<char>>, name: Seq<char>) -> bool {
    filter.len() == 0 || exists|j: int| 0 <= j < filter.len() && #[trigger] filter[j] == name
}

/// Package `p` of `g` is to be instrumented: its library defines macros,
/// the filter lets its name through, and it is neither a package called
/// `support` nor anything that such a package depends on.
pub open spec fn selected(g: Graph, support: Seq<char>, filter: Seq<Seq<char>>, p: int) -> bool {
    &&& 0 <= p < g.size()
    &&& g.packages@[p].provides_macros()
    &&& lets_through(filter, g.packages@[p].name@)
    &&& !g.reaches(g.named(support), p)
}

fn passes_filter(filter: &Vec<String>, name: &str) -> (r: bool)
    ensures
        r == lets_through(texts(filter@), name@),
{
    if filter.len() == 0 {
        return true;
    }
    let mut j: usize = 0;
    while j < filter.len()
        invariant
            j <= filter.len(),
            forall|k: int| 0 <= k < j ==> #[trigger] texts(filter@)[k] != name@,
        decreases filter.len() - j,
    {
        if same_text(filter[j].as_str(), name) {
            assert(texts(filter@)[j as int] == name@);
            return true;
        }
        j += 1;
    }
    false
}

/// The packages to instrument, in rising order of their indices.
///
/// A package called `support`, and whatever such a package depends on, is
/// never among them, whether or not it defines macros.
pub fn resolve_all_packages(graph: &Graph, support: &str, proc_filter: &Vec<String>) -> (out: Vec<
    usize,
>)
    requires
        graph.well_formed(),
    ensures
        forall|p: int| listed(out@).contains(p) <==> selected(*graph, support@, texts(proc_filter@), p),
        forall|i: int, j: int| 0 <= i < j < out@.len() ==> out@[i] < out@[j],
        forall|i: int|
            0 <= i < out@.len() ==> !graph.reaches(graph.named(support@), #[trigger] out@[i] as int),
        forall|i: int|
            0 <= i < out@.len() ==> graph.packages@[#[trigger] out@[i] as int].name@ != support@,
{
    let n = graph.packages.len();
    let mut lib_packages: Vec<usize> = Vec::new();
    let mut i: usize = 0;
    while i < n
        invariant
            i <= n,
            n == graph.size(),
            forall|p: int|
                listed(lib_packages@).contains(p) <==> (0 <= p < i && graph.packages@[p].name@
                    == support@),
        decreases n - i,
    {
        let ghost before = lib_packages@;
        if same_text(graph.packages[i].name.as_str(), support) {
            lib_packages.push(i);
            proof {
                assert(lib_packages@[before.len() as int] == i);
                assert forall|p: int| listed(lib_packages@).contains(p) implies (0 <= p < i + 1
                    && graph.packages@[p].name@ == support@) by {
                    let k = choose|k: int|
                        0 <= k < lib_packages@.len() && #[trigger] lib_packages@[k] == p;
                    if k < before.len() {
                        assert(before[k] == p);
                        assert(listed(before).contains(p));
                    }
                }
                assert forall|p: int|
                    (0 <= p < i + 1 && graph.packages@[p].name@ == support@) implies listed(
                    lib_packages@,
                ).contains(p) by {
                    if p < i {
                        assert(listed(before).contains(p));
                        let k = choose|k: int| 0 <= k < before.len() && #[trigger] before[k] == p;
                        assert(lib_packages@[k] == p);
                    }
                }
            }
        }
        i += 1;
    }
    assert(listed(lib_packages@) =~= graph.named(support@));
    let lib_package_deps = resolve_deps(&lib_packages, graph);
    let mut out: Vec<usize> = Vec::new();
    let mut p: usize = 0;
    while p < n
        invariant
            p <= n,
            n == graph.size(),
            lib_package_deps@.len() == n,
            forall|t: int|
                0 <= t < n ==> (lib_package_deps@[t] <==> graph.reaches(graph.named(support@), t)),
            forall|q: int|
                listed(out@).contains(q) <==> (q < p && selected(
                    *graph,
                    support@,
                    texts(proc_filter@),
                    q,
                )),
            forall|i: int, j: int| 0 <= i < j < out@.len() ==> out@[i] < out@[j],
            forall|i: int| 0 <= i < out@.len() ==> out@[i] < p,
        decreases n - p,
    {
        let ghost before = out@;
        let package = &graph.packages[p];
        if package.is_macro_provider() && passes_filter(proc_filter, package.name.as_str())
            && !lib_package_deps[p] {
            out.push(p);
            proof {
                assert(out@[before.len() as int] == p);
                assert forall|q: int| listed(out@).contains(q) implies (q < p + 1 && selected(
                    *graph,
                    support@,
                    texts(proc_filter@),
                    q,
                )) by {
                    let k = choose|k: int| 0 <= k < out@.len() && #[trigger] out@[k] == q;
                    if k < before.len() {
                        assert(before[k] == q);
                        assert(listed(before).contains(q));
                    }
                }
                assert forall|q: int|
                    (q < p + 1 && selected(
                        *graph,
                        support@,
                        texts(proc_filter@),
                        q,
                    )) implies listed(out@).contains(q) by {
                    if q < p {
                        assert(listed(before).contains(q));
                        let k = choose|k: int| 0 <= k < before.len() && #[trigger] before[k] == q;
                        assert(out@[k] == q);
                    }
                }
            }
        }
        p += 1;
    }
    proof {
        assert forall|i: int| 0 <= i < out@.len() implies !graph.reaches(
            graph.named(support@),
            #[trigger] out@[i] as int,
        ) && graph.packages@[out@[i] as int].name@ != support@ by {
            let q = out@[i] as int;
            assert(listed(out@).contains(q));
            if graph.packages@[q].name@ == support@ {
                assert(graph.named(support@).contains(q));
                lemma_seed_reaches(*graph, graph.named(support@), q);
            }
        }
    }
    out
}

} // verus!
