//! The rewrites that instrument a package: of its library source, so that
//! every macro it defines is wrapped, and of its manifest, so that it
//! depends on the support library.

use vstd::prelude::*;
use crate::text::{begins_with, chars_of, followed_by, matches_at, push_str, string_of};

verus! {

/// The name of the support library, as a manifest names it.
pub const SUPPORT_NAME: &'static str = "proc-debug";

/// What is appended to the name of a file to name its backup.
pub const BACKUP_SUFFIX: &'static str = ".proc-debug-bak";

/// The declaration that wraps a macro definition, and the line break that
/// follows it.
pub const WRAPPER_LINE: &'static str = "#[::proc_debug::proc_debug]\n";

/// The marker of a function-like macro definition.
pub const FUNCTION_MARKER: &'static str = "#[proc_macro]";

/// The marker of an attribute macro definition.
pub const ATTRIBUTE_MARKER: &'static str = "#[proc_macro_attribute]";

/// The start of the marker of a derive macro definition.
pub const DERIVE_MARKER: &'static str = "#[proc_macro_derive";

/// What `comment::c::find_comments` finds in a source: where each comment
/// begins and where it ends, counted in characters, or nothing where the
/// finder gives up.
pub uninterp spec fn comment_ranges(content: Seq<char>) -> Option<Seq<(usize, usize)>>;

/// Calls `comment::c::find_comments`, the finder behind
/// `comment::rust::strip`: it walks the characters once and notes each `//`
/// and `/* */` comment outside string and character literals by the index
/// of its first character and the index after its last, or gives up with an
/// error. Nothing is claimed of the answer but that it is
/// [`comment_ranges`] of the text.
#[verifier::external_body]
fn find_comments(content: &str) -> (r: Option<Vec<(usize, usize)>>)
    ensures
        match r {
            Some(v) => comment_ranges(content@) == Some(v@),
            None => comment_ranges(content@) is None,
        },
{
    comment::c::find_comments(content).ok().map(|found| found.iter().map(|m| (m.from, m.to)).collect())
}

/// The ranges lie in a text of `len` characters one after the other, none
/// before `at`: each begins inside the text, ends no earlier than it begins
/// and no later than the text, and begins no earlier than the one before it
/// ends.
pub open spec fn orderly(ranges: Seq<(usize, usize)>, at: int, len: int) -> bool
    decreases ranges.len(),
{
    ranges.len() == 0 || {
        let (from, to) = ranges[0];
        &&& at <= from <= to <= len
        &&& from < len
        &&& orderly(ranges.skip(1), to as int, len)
    }
}

/// The text `s` from index `at` on, without what lies in the ranges.
pub open spec fn uncommented(s: Seq<char>, ranges: Seq<(usize, usize)>, at: int) -> Seq<char>
    decreases ranges.len(),
{
    if ranges.len() == 0 {
        s.subrange(at, s.len() as int)
    } else {
        s.subrange(at, ranges[0].0 as int) + uncommented(s, ranges.skip(1), ranges[0].1 as int)
    }
}

/// The source `s` without its comments, where `ranges` says where they are:
/// nothing where the comments were not found or the ranges are not in
/// order.
pub open spec fn stripped(s: Seq<char>, ranges: Option<Seq<(usize, usize)>>) -> Option<Seq<char>> {
    match ranges {
        Some(r) => if orderly(r, 0, s.len() as int) {
            Some(uncommented(s, r, 0))
        } else {
            None
        },
        None => None,
    }
}

/// Removes from `content` what lies in `ranges`.
pub fn remove_comments(content: &str, found: Option<Vec<(usize, usize)>>) -> (r: Option<String>)
    ensures
        opt_chars(r) == stripped(
            content@,
            match found {
                Some(v) => Some(v@),
                None => None,
            },
        ),
{
    let ranges = match found {
        Some(v) => v,
        None => {
            return None;
        },
    };
    let src = chars_of(content);
    let n = src.len();
    let mut out: Vec<char> = Vec::new();
    let mut at: usize = 0;
    let mut k: usize = 0;
    assert(ranges@.skip(0) =~= ranges@);
    assert(out@ + uncommented(src@, ranges@, 0) =~= uncommented(src@, ranges@, 0));
    while k < ranges.len()
        invariant
            k <= ranges.len(),
            at <= n,
            n == src@.len(),
            src@ == content@,
            found == Some(ranges),
            orderly(ranges@.skip(k as int), at as int, n as int) == orderly(ranges@, 0, n as int),
            out@ + uncommented(src@, ranges@.skip(k as int), at as int) == uncommented(
                src@,
                ranges@,
                0,
            ),
        decreases ranges.len() - k,
    {
        let ghost cur = ranges@.skip(k as int);
        let ghost done = out@;
        let (from, to) = ranges[k];
        assert(cur[0] == (from, to));
        assert(cur.skip(1) =~= ranges@.skip(k + 1));
        if !(at <= from && from <= to && to <= n && from < n) {
            assert(!orderly(cur, at as int, n as int));
            return None;
        }
        assert(orderly(cur, at as int, n as int) == orderly(cur.skip(1), to as int, n as int));
        let mut i: usize = at;
        while i < from
            invariant
                at <= i <= from,
                from <= n,
                n == src@.len(),
                out@ == done + src@.subrange(at as int, i as int),
            decreases from - i,
        {
            out.push(src[i]);
            i += 1;
            assert(src@.subrange(at as int, i as int) =~= src@.subrange(at as int, i - 1).push(
                src@[i - 1],
            ));
        }
        assert(out@ + uncommented(src@, ranges@.skip(k + 1), to as int) =~= done + uncommented(
            src@,
            cur,
            at as int,
        ));
        at = to;
        k += 1;
    }
    assert(ranges@.skip(k as int) =~= Seq::<(usize, usize)>::empty());
    let ghost done = out@;
    let mut i: usize = at;
    while i < n
        invariant
            at <= i <= n,
            n == src@.len(),
            out@ == done + src@.subrange(at as int, i as int),
        decreases n - i,
    {
        out.push(src[i]);
        i += 1;
        assert(src@.subrange(at as int, i as int) =~= src@.subrange(at as int, i - 1).push(
            src@[i - 1],
        ));
    }
    Some(string_of(&out))
}

/// The characters of an optional string.
pub open spec fn opt_chars(o: Option<String>) -> Option<Seq<char>> {
    match o {
        Some(s) => Some(s@),
        None => None,
    }
}

/// The lengths of the three markers.
pub proof fn lemma_marker_lengths()
    ensures
        FUNCTION_MARKER@.len() == 13,
        ATTRIBUTE_MARKER@.len() == 23,
        DERIVE_MARKER@.len() == 19,
{
    reveal_strlit("#[proc_macro]");
    reveal_strlit("#[proc_macro_attribute]");
    reveal_strlit("#[proc_macro_derive");
}

/// The marker that `s` begins with, if it begins with one.
pub open spec fn marker_in_front(s: Seq<char>) -> Option<Seq<char>> {
    if begins_with(s, FUNCTION_MARKER@) {
        Some(FUNCTION_MARKER@)
    } else if begins_with(s, ATTRIBUTE_MARKER@) {
        Some(ATTRIBUTE_MARKER@)
    } else if begins_with(s, DERIVE_MARKER@) {
        Some(DERIVE_MARKER@)
    } else {
        None
    }
}

/// The source `s` with the wrapper declaration, on a line of its own, put
/// before every marker of a macro definition, and nothing else changed.
pub open spec fn instrumented(s: Seq<char>) -> Seq<char>
    decreases s.len(),
{
    if s.len() == 0 {
        Seq::empty()
    } else {
        match marker_in_front(s) {
            Some(m) => {
                proof {
                    lemma_marker_lengths();
                }
                WRAPPER_LINE@ + m + instrumented(s.skip(m.len() as int))
            },
            None => seq![s[0]] + instrumented(s.skip(1)),
        }
    }
}

/// Why a source could not be rewritten.
#[derive(Clone, Copy, Debug, PartialEq, Eq, Structural)]
pub enum ModifyError {
    /// The comments could not be removed.
    CannotRemoveComment,
}

impl ModifyError {
    /// The error in words.
    pub fn message(&self) -> (m: &'static str)
        ensures
            m@ == "Cannot remove comment"@,
    {
        match self {
            ModifyError::CannotRemoveComment => "Cannot remove comment",
        }
    }
}

/// Puts the wrapper declaration before every marker in `source`.
pub fn insert_wrappers(source: &str) -> (out: String)
    ensures
        out@ == instrumented(source@),
{
    let src = chars_of(source);
    let function = chars_of(FUNCTION_MARKER);
    let attribute = chars_of(ATTRIBUTE_MARKER);
    let derive = chars_of(DERIVE_MARKER);
    proof {
        lemma_marker_lengths();
    }
    let mut out: Vec<char> = Vec::new();
    let mut i: usize = 0;
    assert(src@.skip(0) =~= src@);
    assert(out@ + instrumented(src@) =~= instrumented(src@));
    while i < src.len()
        invariant
            i <= src.len(),
            function@ == FUNCTION_MARKER@,
            attribute@ == ATTRIBUTE_MARKER@,
            derive@ == DERIVE_MARKER@,
            function@.len() == 13,
            attribute@.len() == 23,
            derive@.len() == 19,
            out@ + instrumented(src@.skip(i as int)) == instrumented(src@),
        decreases src.len() - i,
    {
        let ghost cur = src@.skip(i as int);
        let ghost done = out@;
        let is_function = matches_at(&src, i, &function);
        let is_attribute = matches_at(&src, i, &attribute);
        let is_derive = matches_at(&src, i, &derive);
        proof {
            assert(is_function == begins_with(cur, function@)) by {
                if i + 13 <= src.len() {
                    assert(cur.subrange(0, 13) =~= src@.subrange(i as int, i + 13));
                }
            }
            assert(is_attribute == begins_with(cur, attribute@)) by {
                if i + 23 <= src.len() {
                    assert(cur.subrange(0, 23) =~= src@.subrange(i as int, i + 23));
                }
            }
            assert(is_derive == begins_with(cur, derive@)) by {
                if i + 19 <= src.len() {
                    assert(cur.subrange(0, 19) =~= src@.subrange(i as int, i + 19));
                }
            }
        }
        let step: usize = if is_function {
            13
        } else if is_attribute {
            23
        } else if is_derive {
            19
        } else {
            0
        };
        if step > 0 {
            push_str(&mut out, WRAPPER_LINE);
            let ghost wrapped = out@;
            let mut k: usize = 0;
            while k < step
                invariant
                    k <= step,
                    i + step <= src.len(),
                    out@ == wrapped + src@.subrange(i as int, i + k),
                decreases step - k,
            {
                out.push(src[i + k]);
                k += 1;
                assert(src@.subrange(i as int, i + k) =~= src@.subrange(i as int, i + k - 1).push(
                    src@[i + k - 1],
                ));
            }
            proof {
                let m = marker_in_front(cur)->0;
                assert(m =~= src@.subrange(i as int, i + step));
                assert(cur.skip(step as int) =~= src@.skip(i + step));
                assert(out@ + instrumented(src@.skip(i + step)) =~= done + instrumented(cur));
            }
            i += step;
        } else {
            out.push(src[i]);
            proof {
                assert(cur.skip(1) =~= src@.skip(i + 1));
                assert(out@ + instrumented(src@.skip(i + 1)) =~= done + instrumented(cur));
            }
            i += 1;
        }
    }
    assert(src@.skip(i as int) =~= Seq::<char>::empty());
    assert(out@ + Seq::<char>::empty() =~= out@);
    string_of(&out)
}

/// Finishes the rewrite of a source from what stripping its comments gave:
/// the wrapper declaration goes before every marker of what is left.
pub fn modify_stripped(stripped: Option<String>) -> (r: Result<String, ModifyError>)
    ensures
        match r {
            Ok(s) => stripped matches Some(t) && s@ == instrumented(t@),
            Err(e) => stripped is None && e == ModifyError::CannotRemoveComment,
        },
{
    match stripped {
        Some(s) => Ok(insert_wrappers(s.as_str())),
        None => Err(ModifyError::CannotRemoveComment),
    }
}

/// Rewrites a library source, whatever characters it holds: strips its
/// comments, so that no marker is found inside one, then puts the wrapper
/// declaration before every marker of a macro definition.
pub fn modify_rust_file(content: String) -> (r: Result<String, ModifyError>)
    ensures
        match stripped(content@, comment_ranges(content@)) {
            Some(t) => r matches Ok(s) && s@ == instrumented(t),
            None => r == Err::<String, ModifyError>(ModifyError::CannotRemoveComment),
        },
{
    let ranges = find_comments(content.as_str());
    modify_stripped(remove_comments(content.as_str(), ranges))
}

/// The header of the table that declares the dependency on the support
/// library.
pub const SUPPORT_TABLE: &'static str = "[dependencies.proc-debug]";

/// The header of the table of dependencies.
pub const DEPENDENCIES_TABLE: &'static str = "[dependencies]";

/// What may stand before and inside a line without a meaning of its own.
pub open spec fn is_blank(c: char) -> bool {
    c == ' ' || c == '\t' || c == '\r'
}

/// The first line of `s`: what stands before its first line break.
pub open spec fn first_line(s: Seq<char>) -> Seq<char>
    decreases s.len(),
{
    if s.len() == 0 || s[0] == '\n' {
        Seq::empty()
    } else {
        seq![s[0]] + first_line(s.skip(1))
    }
}

/// The line `l` without the blanks that it begins with.
pub open spec fn unindented(l: Seq<char>) -> Seq<char>
    decreases l.len(),
{
    if l.len() > 0 && is_blank(l[0]) {
        unindented(l.skip(1))
    } else {
        l
    }
}

/// The line gives the support library a value: it begins with the
/// library's name as a key, followed by `=`, or by `.` for a key under it.
pub open spec fn keys_support(l: Seq<char>) -> bool {
    begins_with(l, SUPPORT_NAME@) && ({
        let after = unindented(l.skip(SUPPORT_NAME@.len() as int));
        after.len() > 0 && (after[0] == '=' || after[0] == '.')
    })
}

/// The manifest text `s` declares a dependency on the support library, when
/// it is read from a place inside the table of dependencies (`in_table`) or
/// outside of it.
///
/// Line by line: the header of the library's own table under the
/// dependencies declares it. So does the library's name as a key inside the
/// table of dependencies, which a line with that table's header opens and
/// a line with any other header closes.
pub open spec fn declares_support(s: Seq<char>, in_table: bool) -> bool
    decreases s.len(),
{
    if s.len() == 0 {
        false
    } else {
        let line = first_line(s);
        let body = unindented(line);
        let rest = if line.len() < s.len() {
            s.skip(line.len() as int + 1)
        } else {
            Seq::empty()
        };
        if begins_with(body, SUPPORT_TABLE@) {
            true
        } else if in_table && keys_support(body) {
            true
        } else if body.len() > 0 && body[0] == '[' {
            declares_support(rest, begins_with(body, DEPENDENCIES_TABLE@))
        } else {
            declares_support(rest, in_table)
        }
    }
}

/// The manifest `content` with a dependency on the support library at
/// `lib_path`, unless the manifest declares one already.
pub open spec fn manifest_with_support(content: Seq<char>, lib_path: Seq<char>) -> Seq<char> {
    if declares_support(content, false) {
        content
    } else {
        content + "\n\n[dependencies.proc-debug]\npath = \""@ + lib_path + "\""@
    }
}

proof fn lemma_first_line_before_break(c: Seq<char>, a: Seq<char>)
    requires
        a.len() > 0,
        a[0] == '\n',
    ensures
        first_line(c + a) == first_line(c),
        first_line(c).len() <= c.len(),
        first_line(c).len() < c.len() ==> c[first_line(c).len() as int] == '\n',
    decreases c.len(),
{
    if c.len() == 0 {
        assert(c + a =~= a);
    } else if c[0] == '\n' {
    } else {
        lemma_first_line_before_break(c.skip(1), a);
        assert((c + a).skip(1) =~= c.skip(1) + a);
    }
}

proof fn lemma_line_without_break(c: Seq<char>)
    requires
        forall|i: int| 0 <= i < c.len() ==> c[i] != '\n',
    ensures
        first_line(c) == c,
    decreases c.len(),
{
    if c.len() > 0 {
        lemma_line_without_break(c.skip(1));
        assert(seq![c[0]] + c.skip(1) =~= c);
    }
}

/// A text that ends in a line break and what declares the dependency
/// declares it, whatever stands before the line break.
proof fn lemma_declared_at_the_end(c: Seq<char>, a: Seq<char>, in_table: bool)
    requires
        a.len() > 0,
        a[0] == '\n',
        declares_support(a.skip(1), true),
        declares_support(a.skip(1), false),
    ensures
        declares_support(c + a, in_table),
    decreases c.len(),
{
    let s = c + a;
    let line = first_line(s);
    lemma_first_line_before_break(c, a);
    if line.len() < c.len() {
        let shorter = c.skip(line.len() as int + 1);
        assert(s.skip(line.len() as int + 1) =~= shorter + a);
        lemma_declared_at_the_end(shorter, a, true);
        lemma_declared_at_the_end(shorter, a, false);
    } else {
        assert(s.skip(line.len() as int + 1) =~= a.skip(1));
    }
}

/// A manifest that was given the dependency declares it: rewriting it once
/// more changes nothing.
pub proof fn lemma_manifest_declares_after_rewrite(content: Seq<char>, lib_path: Seq<char>)
    ensures
        declares_support(manifest_with_support(content, lib_path), false),
        manifest_with_support(manifest_with_support(content, lib_path), lib_path)
            == manifest_with_support(content, lib_path),
{
    if !declares_support(content, false) {
        reveal_strlit("\n\n[dependencies.proc-debug]\npath = \"");
        reveal_strlit("[dependencies.proc-debug]");
        let added = "\n\n[dependencies.proc-debug]\npath = \""@ + lib_path + "\""@;
        let header = SUPPORT_TABLE@;
        let tail = added.skip(27);
        let blank = added.skip(1);
        let table = added.skip(2);
        assert(header.len() == 25);
        assert(table =~= header + tail);
        assert(tail[0] == '\n');
        lemma_line_without_break(header);
        lemma_first_line_before_break(header, tail);
        assert(first_line(table) == header);
        assert(unindented(header) == header);
        assert(header.subrange(0, 25) =~= header);
        assert(begins_with(header, SUPPORT_TABLE@));
        assert(declares_support(table, true) && declares_support(table, false));
        assert(blank[0] == '\n');
        assert(first_line(blank) =~= Seq::<char>::empty());
        assert(blank.skip(1) =~= table);
        assert(unindented(Seq::<char>::empty()) =~= Seq::<char>::empty());
        assert(declares_support(blank, true) && declares_support(blank, false));
        lemma_declared_at_the_end(content, added, false);
        assert(content + "\n\n[dependencies.proc-debug]\npath = \""@ + lib_path + "\""@ =~= content
            + added);
    }
}

fn line_at(src: &Vec<char>, from: usize) -> (line: Vec<char>)
    requires
        from <= src@.len(),
    ensures
        line@ == first_line(src@.skip(from as int)),
        from + line@.len() <= src@.len(),
{
    let mut line: Vec<char> = Vec::new();
    let mut i: usize = from;
    let ghost tail = src@.skip(from as int);
    assert(tail.skip(0) =~= tail);
    assert(line@ + first_line(tail) =~= first_line(tail));
    while i < src.len() && src[i] != '\n'
        invariant
            from <= i <= src@.len(),
            tail == src@.skip(from as int),
            line@.len() == i - from,
            line@ + first_line(tail.skip(i - from)) == first_line(tail),
        decreases src@.len() - i,
    {
        let ghost cur = tail.skip(i - from);
        let ghost done = line@;
        line.push(src[i]);
        proof {
            assert(cur[0] == src@[i as int]);
            assert(cur.skip(1) =~= tail.skip(i + 1 - from));
            assert(line@ + first_line(tail.skip(i + 1 - from)) =~= done + first_line(cur));
        }
        i += 1;
    }
    proof {
        let cur = tail.skip(i - from);
        if i < src.len() {
            assert(cur[0] == src@[i as int]);
        }
        assert(first_line(cur) =~= Seq::<char>::empty());
        assert(line@ + Seq::<char>::empty() =~= line@);
    }
    line
}

fn unindent(line: &Vec<char>, from: usize) -> (body: Vec<char>)
    requires
        from <= line@.len(),
    ensures
        body@ == unindented(line@.skip(from as int)),
{
    let mut i: usize = from;
    while i < line.len() && (line[i] == ' ' || line[i] == '\t' || line[i] == '\r')
        invariant
            from <= i <= line@.len(),
            unindented(line@.skip(i as int)) == unindented(line@.skip(from as int)),
        decreases line@.len() - i,
    {
        proof {
            let cur = line@.skip(i as int);
            assert(cur[0] == line@[i as int]);
            assert(cur.skip(1) =~= line@.skip(i + 1));
        }
        i += 1;
    }
    let mut body: Vec<char> = Vec::new();
    let ghost start = i;
    proof {
        let cur = line@.skip(i as int);
        if i < line.len() {
            assert(cur[0] == line@[i as int]);
        }
        assert(unindented(cur) == cur);
    }
    while i < line.len()
        invariant
            start <= i <= line@.len(),
            body@ == line@.subrange(start as int, i as int),
        decreases line@.len() - i,
    {
        body.push(line[i]);
        i += 1;
        assert(line@.subrange(start as int, i as int) =~= line@.subrange(start as int, i - 1).push(
            line@[i - 1],
        ));
    }
    assert(line@.subrange(start as int, line@.len() as int) =~= line@.skip(start as int));
    body
}

fn gives_support_a_value(body: &Vec<char>, name: &Vec<char>) -> (r: bool)
    requires
        name@ == SUPPORT_NAME@,
    ensures
        r == keys_support(body@),
{
    if !matches_at(body, 0, name) {
        return false;
    }
    let after = unindent(body, name.len());
    after.len() > 0 && (after[0] == '=' || after[0] == '.')
}

/// Whether a manifest declares a dependency on the support library.
pub fn depends_on_support(content: &str) -> (r: bool)
    ensures
        r == declares_support(content@, false),
{
    let src = chars_of(content);
    let table = chars_of(SUPPORT_TABLE);
    let dependencies = chars_of(DEPENDENCIES_TABLE);
    let name = chars_of(SUPPORT_NAME);
    let n = src.len();
    let mut i: usize = 0;
    let mut in_table = false;
    assert(src@.skip(0) =~= src@);
    while i < n
        invariant
            i <= n,
            n == src@.len(),
            src@ == content@,
            table@ == SUPPORT_TABLE@,
            dependencies@ == DEPENDENCIES_TABLE@,
            name@ == SUPPORT_NAME@,
            declares_support(src@.skip(i as int), in_table) == declares_support(content@, false),
        decreases n - i,
    {
        let ghost cur = src@.skip(i as int);
        let line = line_at(&src, i);
        let body = unindent(&line, 0);
        assert(line@.skip(0) =~= line@);
        if matches_at(&body, 0, &table) {
            return true;
        }
        if in_table && gives_support_a_value(&body, &name) {
            return true;
        }
        if body.len() > 0 && body[0] == '[' {
            in_table = matches_at(&body, 0, &dependencies);
        }
        if line.len() < n - i {
            assert(cur.skip(line@.len() as int + 1) =~= src@.skip(i + line@.len() + 1));
            i = i + line.len() + 1;
        } else {
            i = n;
            assert(src@.skip(n as int) =~= Seq::<char>::empty());
        }
    }
    assert(src@.skip(i as int) =~= Seq::<char>::empty());
    false
}

/// Rewrites a manifest so that it depends on the support library at
/// `lib_path`. A manifest that declares the dependency is returned as it
/// is.
pub fn modify_toml_file(content: String, lib_path: &str) -> (out: String)
    ensures
        out@ == manifest_with_support(content@, lib_path@),
{
    if depends_on_support(content.as_str()) {
        content
    } else {
        let a = followed_by(content.as_str(), "\n\n[dependencies.proc-debug]\npath = \"");
        let b = followed_by(a.as_str(), lib_path);
        followed_by(b.as_str(), "\"")
    }
}

/// The name of the backup of the file named `fname`.
pub fn backup_name(fname: &str) -> (out: String)
    ensures
        out@ == fname@ + BACKUP_SUFFIX@,
{
    followed_by(fname, BACKUP_SUFFIX)
}

} // verus!
