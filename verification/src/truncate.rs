//! Depth-bounded truncation of a token stream, and its inverse.
//!
//! Truncation keeps what lies above a cut and puts a placeholder where it
//! cut: a call of a reserved macro name with an empty brace group, which is
//! an ordinary piece of syntax and so survives a printer. The inverse turns
//! each placeholder into the marker it stands for. What lay below the cut is
//! gone for good.

use vstd::prelude::*;
use crate::text::same_text;
use crate::token::{
    lemma_group_view, lemma_stream_view_push, stream_view, Delimiter, Token, TokenView, CALL_SITE,
};

verus! {

/// The macro name whose call stands for content that was cut away.
pub const ELLIPSIS_NAME: &'static str = "__proc_debug_ellipsis";

/// The macro name whose call stands for the self-reference token.
pub const SELF_REF_NAME: &'static str = "__proc_debug_dollar_crate";

/// The self-reference token's name.
pub const SELF_REF: &'static str = "$crate";

/// The depth that is used when none is asked for.
pub const DEFAULT_DEPTH: usize = 4;

/// A call of the macro `name` with an empty brace group, every leaf at `pos`.
pub open spec fn placeholder_call(name: Seq<char>, pos: u64) -> Seq<TokenView> {
    seq![
        TokenView::Ident { name, pos },
        TokenView::Punct { ch: '!', joint: false, pos },
        TokenView::Group { delimiter: Delimiter::Brace, stream: Seq::empty() },
    ]
}

/// The literal ellipsis `...`, every dot at `pos`.
pub open spec fn ellipsis_marker(pos: u64) -> Seq<TokenView> {
    seq![
        TokenView::Punct { ch: '.', joint: true, pos },
        TokenView::Punct { ch: '.', joint: true, pos },
        TokenView::Punct { ch: '.', joint: false, pos },
    ]
}

/// The token is the statement terminator `;`.
pub open spec fn is_terminator(t: TokenView) -> bool {
    t matches TokenView::Punct { ch, .. } && ch == ';'
}

/// The token is the self-reference token.
pub open spec fn is_self_ref(t: TokenView) -> bool {
    t matches TokenView::Ident { name, .. } && name == SELF_REF@
}

/// The position of a leaf; that of a made-up token for a group.
pub open spec fn position(t: TokenView) -> u64 {
    match t {
        TokenView::Ident { pos, .. } => pos,
        TokenView::Punct { pos, .. } => pos,
        TokenView::Literal { pos, .. } => pos,
        TokenView::Group { .. } => CALL_SITE,
    }
}

/// The stream `s` cut at `depth`, when `seen` terminators of this level have
/// gone by already.
///
/// At depth zero the whole stream becomes one ellipsis placeholder, whatever
/// it holds. Otherwise each group is cut at one level less, the
/// self-reference token becomes its placeholder, and the terminator that
/// brings the count to `depth` is followed by an ellipsis placeholder in
/// place of everything after it.
pub open spec fn truncated(s: Seq<TokenView>, depth: nat, seen: nat) -> Seq<TokenView>
    decreases s,
{
    if depth == 0 {
        placeholder_call(ELLIPSIS_NAME@, CALL_SITE)
    } else if s.len() == 0 {
        Seq::empty()
    } else {
        let rest = s.subrange(1, s.len() as int);
        match s[0] {
            TokenView::Group { delimiter, stream } => seq![
                TokenView::Group { delimiter, stream: truncated(stream, (depth - 1) as nat, 0) },
            ] + truncated(rest, depth, seen),
            TokenView::Punct { ch, joint, pos } => if ch == ';' && seen + 1 >= depth {
                seq![s[0]] + placeholder_call(ELLIPSIS_NAME@, pos)
            } else if ch == ';' {
                seq![s[0]] + truncated(rest, depth, seen + 1)
            } else {
                seq![s[0]] + truncated(rest, depth, seen)
            },
            TokenView::Ident { name, pos } => if name == SELF_REF@ {
                placeholder_call(SELF_REF_NAME@, pos) + truncated(rest, depth, seen)
            } else {
                seq![s[0]] + truncated(rest, depth, seen)
            },
            TokenView::Literal { .. } => seq![s[0]] + truncated(rest, depth, seen),
        }
    }
}

/// A call of the macro `name` with a brace group stands at the front of `s`.
pub open spec fn call_in_front(s: Seq<TokenView>, name: Seq<char>) -> bool {
    &&& s.len() >= 3
    &&& s[0] matches TokenView::Ident { name: n, .. } && n == name
    &&& s[1] matches TokenView::Punct { ch, .. } && ch == '!'
    &&& s[2] matches TokenView::Group { delimiter, .. } && delimiter == Delimiter::Brace
}

/// The stream `s` with each placeholder turned into what it stands for: a
/// call of the ellipsis name into the literal ellipsis, a call of the
/// self-reference name into the self-reference token, at every level of
/// nesting. Every other token stays as it is.
pub open spec fn restored(s: Seq<TokenView>) -> Seq<TokenView>
    decreases s,
{
    if s.len() == 0 {
        Seq::empty()
    } else if call_in_front(s, ELLIPSIS_NAME@) {
        ellipsis_marker(position(s[0])) + restored(s.subrange(3, s.len() as int))
    } else if call_in_front(s, SELF_REF_NAME@) {
        seq![TokenView::Ident { name: SELF_REF@, pos: position(s[0]) }] + restored(
            s.subrange(3, s.len() as int),
        )
    } else {
        let rest = s.subrange(1, s.len() as int);
        match s[0] {
            TokenView::Group { delimiter, stream } => seq![
                TokenView::Group { delimiter, stream: restored(stream) },
            ] + restored(rest),
            _ => seq![s[0]] + restored(rest),
        }
    }
}

fn push_token(out: &mut Vec<Token>, t: Token)
    ensures
        stream_view(final(out)@) == stream_view(old(out)@).push(t@),
{
    proof {
        lemma_stream_view_push(out@, t);
    }
    out.push(t);
}

fn push_call(out: &mut Vec<Token>, name: &str, pos: u64)
    ensures
        stream_view(final(out)@) == stream_view(old(out)@) + placeholder_call(name@, pos),
{
    push_token(out, Token::ident(name, pos));
    push_token(out, Token::punct('!', false, pos));
    let empty: Vec<Token> = Vec::new();
    assert(stream_view(empty@) =~= Seq::<TokenView>::empty());
    push_token(out, Token::group(Delimiter::Brace, empty));
    assert(stream_view(out@) =~= stream_view(old(out)@) + placeholder_call(name@, pos));
}

/// Cuts `tokens` at `depth`.
///
/// With `depth` zero the result is the one ellipsis placeholder, and the
/// tokens are not looked at.
pub fn simplify_and_replace(tokens: &Vec<Token>, depth: usize) -> (out: Vec<Token>)
    ensures
        stream_view(out@) == truncated(stream_view(tokens@), depth as nat, 0),
        depth == 0 ==> stream_view(out@) == placeholder_call(ELLIPSIS_NAME@, CALL_SITE),
    decreases tokens,
{
    let mut out: Vec<Token> = Vec::new();
    assert(stream_view(out@) =~= Seq::<TokenView>::empty());
    if depth == 0 {
        push_call(&mut out, ELLIPSIS_NAME, CALL_SITE);
        assert(stream_view(out@) =~= placeholder_call(ELLIPSIS_NAME@, CALL_SITE));
        return out;
    }
    let ghost sv = stream_view(tokens@);
    let mut count: usize = 0;
    let mut i: usize = 0;
    assert(sv.subrange(0, sv.len() as int) =~= sv);
    assert(stream_view(out@) + truncated(sv, depth as nat, 0) =~= truncated(sv, depth as nat, 0));
    while i < tokens.len()
        invariant
            depth > 0,
            count < depth,
            i <= tokens.len(),
            sv == stream_view(tokens@),
            stream_view(out@) + truncated(
                sv.subrange(i as int, sv.len() as int),
                depth as nat,
                count as nat,
            ) == truncated(sv, depth as nat, 0),
        decreases tokens.len() - i,
    {
        let ghost cur = sv.subrange(i as int, sv.len() as int);
        let ghost rest = sv.subrange(i + 1, sv.len() as int);
        let ghost done = stream_view(out@);
        proof {
            assert(cur.subrange(1, cur.len() as int) =~= rest);
            assert(cur[0] == tokens@[i as int]@);
        }
        match &tokens[i] {
            Token::Group { delimiter, stream } => {
                proof {
                    lemma_group_view(tokens@[i as int]);
                }
                let inner = simplify_and_replace(stream, depth - 1);
                push_token(&mut out, Token::group(*delimiter, inner));
                assert(stream_view(out@) + truncated(rest, depth as nat, count as nat) =~= done
                    + truncated(cur, depth as nat, count as nat));
            },
            Token::Punct { ch, joint, pos } => {
                push_token(&mut out, Token::punct(*ch, *joint, *pos));
                if *ch == ';' {
                    count += 1;
                    if count >= depth {
                        push_call(&mut out, ELLIPSIS_NAME, *pos);
                        assert(stream_view(out@) =~= done + truncated(
                            cur,
                            depth as nat,
                            (count - 1) as nat,
                        ));
                        return out;
                    }
                }
                assert(stream_view(out@) + truncated(rest, depth as nat, count as nat) =~= done
                    + truncated(cur, depth as nat, old_count(count, *ch)));
            },
            Token::Ident { name, pos } => {
                if same_text(name.as_str(), SELF_REF) {
                    push_call(&mut out, SELF_REF_NAME, *pos);
                } else {
                    push_token(&mut out, Token::ident(name.as_str(), *pos));
                }
                assert(stream_view(out@) + truncated(rest, depth as nat, count as nat) =~= done
                    + truncated(cur, depth as nat, count as nat));
            },
            Token::Literal { text, pos } => {
                push_token(&mut out, Token::literal(text.as_str(), *pos));
                assert(stream_view(out@) + truncated(rest, depth as nat, count as nat) =~= done
                    + truncated(cur, depth as nat, count as nat));
            },
        }
        i += 1;
    }
    assert(sv.subrange(i as int, sv.len() as int) =~= Seq::<TokenView>::empty());
    assert(stream_view(out@) + Seq::<TokenView>::empty() =~= stream_view(out@));
    out
}

/// The count of terminators before a punctuation character was counted.
spec fn old_count(count: usize, ch: char) -> nat {
    if ch == ';' {
        (count - 1) as nat
    } else {
        count as nat
    }
}

/// Turns each placeholder in `tokens` into what it stands for.
pub fn unreplace(tokens: &Vec<Token>) -> (out: Vec<Token>)
    ensures
        stream_view(out@) == restored(stream_view(tokens@)),
    decreases tokens,
{
    let mut out: Vec<Token> = Vec::new();
    let ghost sv = stream_view(tokens@);
    let mut i: usize = 0;
    assert(sv.subrange(0, sv.len() as int) =~= sv);
    assert(stream_view(out@) + restored(sv) =~= restored(sv));
    while i < tokens.len()
        invariant
            i <= tokens.len(),
            sv == stream_view(tokens@),
            stream_view(out@) + restored(sv.subrange(i as int, sv.len() as int)) == restored(sv),
        decreases tokens.len() - i,
    {
        let ghost cur = sv.subrange(i as int, sv.len() as int);
        let ghost done = stream_view(out@);
        proof {
            assert(cur[0] == tokens@[i as int]@);
        }
        let n = tokens.len();
        let mut step: usize = 1;
        match &tokens[i] {
            Token::Ident { name, pos } => {
                let call = n - i >= 3 && is_bang(&tokens[i + 1]) && is_brace_group(&tokens[i + 2]);
                proof {
                    if n - i >= 3 {
                        assert(cur[1] == tokens@[i + 1]@);
                        assert(cur[2] == tokens@[i + 2]@);
                    }
                }
                if call && same_text(name.as_str(), ELLIPSIS_NAME) {
                    push_token(&mut out, Token::punct('.', true, *pos));
                    push_token(&mut out, Token::punct('.', true, *pos));
                    push_token(&mut out, Token::punct('.', false, *pos));
                    step = 3;
                    assert(stream_view(out@) =~= done + ellipsis_marker(*pos));
                } else if call && same_text(name.as_str(), SELF_REF_NAME) {
                    push_token(&mut out, Token::ident(SELF_REF, *pos));
                    step = 3;
                } else {
                    push_token(&mut out, Token::ident(name.as_str(), *pos));
                }
            },
            Token::Punct { ch, joint, pos } => {
                push_token(&mut out, Token::punct(*ch, *joint, *pos));
            },
            Token::Literal { text, pos } => {
                push_token(&mut out, Token::literal(text.as_str(), *pos));
            },
            Token::Group { delimiter, stream } => {
                proof {
                    lemma_group_view(tokens@[i as int]);
                }
                let inner = unreplace(stream);
                push_token(&mut out, Token::group(*delimiter, inner));
            },
        }
        proof {
            let rest = sv.subrange(i + step, sv.len() as int);
            assert(cur.subrange(step as int, cur.len() as int) =~= rest);
            assert(stream_view(out@) + restored(rest) =~= done + restored(cur));
        }
        i += step;
    }
    assert(sv.subrange(i as int, sv.len() as int) =~= Seq::<TokenView>::empty());
    assert(stream_view(out@) + Seq::<TokenView>::empty() =~= stream_view(out@));
    out
}

fn is_bang(t: &Token) -> (r: bool)
    ensures
        r == (t@ matches TokenView::Punct { ch, .. } && ch == '!'),
{
    match t {
        Token::Punct { ch, .. } => *ch == '!',
        _ => false,
    }
}

fn is_brace_group(t: &Token) -> (r: bool)
    ensures
        r == (t@ matches TokenView::Group { delimiter, .. } && delimiter == Delimiter::Brace),
{
    match t {
        Token::Group { delimiter, .. } => {
            proof {
                lemma_group_view(*t);
            }
            matches!(delimiter, Delimiter::Brace)
        },
        _ => false,
    }
}

/// The stream `s` with what truncation at `depth` cuts away replaced by the
/// literal ellipsis, and everything above the cuts as it is in `s`.
pub open spec fn elided(s: Seq<TokenView>, depth: nat, seen: nat) -> Seq<TokenView>
    decreases s,
{
    if depth == 0 {
        ellipsis_marker(CALL_SITE)
    } else if s.len() == 0 {
        Seq::empty()
    } else {
        let rest = s.subrange(1, s.len() as int);
        match s[0] {
            TokenView::Group { delimiter, stream } => seq![
                TokenView::Group { delimiter, stream: elided(stream, (depth - 1) as nat, 0) },
            ] + elided(rest, depth, seen),
            TokenView::Punct { ch, joint, pos } => if ch == ';' && seen + 1 >= depth {
                seq![s[0]] + ellipsis_marker(pos)
            } else if ch == ';' {
                seq![s[0]] + elided(rest, depth, seen + 1)
            } else {
                seq![s[0]] + elided(rest, depth, seen)
            },
            _ => seq![s[0]] + elided(rest, depth, seen),
        }
    }
}

/// No call of a reserved placeholder name with a brace group begins in
/// what truncation at `depth` keeps of `s`, at any level of nesting.
pub open spec fn placeholder_free(s: Seq<TokenView>, depth: nat, seen: nat) -> bool
    decreases s,
{
    depth == 0 || s.len() == 0 || {
        let rest = s.subrange(1, s.len() as int);
        &&& !call_in_front(s, ELLIPSIS_NAME@)
        &&& !call_in_front(s, SELF_REF_NAME@)
        &&& match s[0] {
            TokenView::Group { stream, .. } => placeholder_free(stream, (depth - 1) as nat, 0)
                && placeholder_free(rest, depth, seen),
            TokenView::Punct { ch, .. } => if ch == ';' && seen + 1 >= depth {
                true
            } else if ch == ';' {
                placeholder_free(rest, depth, seen + 1)
            } else {
                placeholder_free(rest, depth, seen)
            },
            _ => placeholder_free(rest, depth, seen),
        }
    }
}

/// Truncation at `depth` cuts nothing from `s`: no level of `s` within
/// `depth` holds `depth` terminators, counting the `seen` ones of the top
/// level, and no group lies at depth zero.
pub open spec fn fits(s: Seq<TokenView>, depth: nat, seen: nat) -> bool
    decreases s,
{
    depth > 0 && (s.len() == 0 || {
        let rest = s.subrange(1, s.len() as int);
        match s[0] {
            TokenView::Group { stream, .. } => fits(stream, (depth - 1) as nat, 0) && fits(
                rest,
                depth,
                seen,
            ),
            TokenView::Punct { ch, .. } => if ch == ';' {
                seen + 1 < depth && fits(rest, depth, seen + 1)
            } else {
                fits(rest, depth, seen)
            },
            _ => fits(rest, depth, seen),
        }
    })
}

/// How many tokens of `s` truncation at `depth` keeps: leaves and groups,
/// at every level, the self-reference token among them.
pub open spec fn kept(s: Seq<TokenView>, depth: nat, seen: nat) -> nat
    decreases s,
{
    if depth == 0 || s.len() == 0 {
        0
    } else {
        let rest = s.subrange(1, s.len() as int);
        match s[0] {
            TokenView::Group { stream, .. } => 1 + kept(stream, (depth - 1) as nat, 0) + kept(
                rest,
                depth,
                seen,
            ),
            TokenView::Punct { ch, .. } => if ch == ';' && seen + 1 >= depth {
                1
            } else if ch == ';' {
                1 + kept(rest, depth, seen + 1)
            } else {
                1 + kept(rest, depth, seen)
            },
            _ => 1 + kept(rest, depth, seen),
        }
    }
}

proof fn lemma_names_differ()
    ensures
        ELLIPSIS_NAME@ != SELF_REF_NAME@,
        ELLIPSIS_NAME@ != SELF_REF@,
        SELF_REF_NAME@ != SELF_REF@,
{
    reveal_strlit("__proc_debug_ellipsis");
    reveal_strlit("__proc_debug_dollar_crate");
    reveal_strlit("$crate");
    assert(ELLIPSIS_NAME@.len() == 21);
    assert(SELF_REF_NAME@.len() == 25);
    assert(SELF_REF@.len() == 6);
}

/// The inverse of an ellipsis placeholder is the literal ellipsis.
proof fn lemma_restored_ellipsis_call(pos: u64)
    ensures
        restored(placeholder_call(ELLIPSIS_NAME@, pos)) == ellipsis_marker(pos),
{
    let call = placeholder_call(ELLIPSIS_NAME@, pos);
    let tail = call.subrange(3, call.len() as int);
    assert(call_in_front(call, ELLIPSIS_NAME@));
    assert(tail =~= Seq::<TokenView>::empty());
    assert(restored(tail) =~= Seq::<TokenView>::empty());
    assert(restored(call) =~= ellipsis_marker(pos) + restored(tail));
}

/// A leaf that stays in front of a truncated stream does not come to head
/// a call of `name` unless it headed one before.
proof fn lemma_no_call_created(s: Seq<TokenView>, depth: nat, seen: nat, name: Seq<char>)
    requires
        depth > 0,
        s.len() > 0,
        !(s[0] is Group),
        !is_self_ref(s[0]),
        !is_terminator(s[0]),
        !call_in_front(s, name),
    ensures
        !call_in_front(
            seq![s[0]] + truncated(s.subrange(1, s.len() as int), depth, seen),
            name,
        ),
{
    let rest = s.subrange(1, s.len() as int);
    let t = truncated(rest, depth, seen);
    let whole = seq![s[0]] + t;
    if rest.len() > 0 && (rest[0] matches TokenView::Punct { ch, .. } && ch == '!') {
        let rest2 = rest.subrange(1, rest.len() as int);
        let t2 = truncated(rest2, depth, seen);
        assert(t == seq![rest[0]] + t2);
        assert(rest[0] == s[1]);
        if rest2.len() > 0 {
            assert(rest2[0] == s[2]);
            let rest3 = rest2.subrange(1, rest2.len() as int);
            assert(t2.len() > 0);
            assert(t2[0] is Group ==> rest2[0] is Group && t2[0]->delimiter
                == rest2[0]->delimiter);
            assert(whole[2] == t2[0]);
        } else {
            assert(t2.len() == 0);
            assert(whole.len() == 2);
        }
    } else if rest.len() > 0 {
        assert(t.len() > 0);
        assert(whole[1] == t[0]);
        assert(!(t[0] matches TokenView::Punct { ch, .. } && ch == '!'));
    } else {
        assert(whole.len() == 1);
    }
}

/// Truncation followed by its inverse gives the stream with the literal
/// ellipsis where it was cut and everything above the cuts unchanged, for
/// every stream that holds no placeholder call of its own above the cuts.
pub proof fn lemma_restore_after_truncate(s: Seq<TokenView>, depth: nat, seen: nat)
    requires
        placeholder_free(s, depth, seen),
    ensures
        restored(truncated(s, depth, seen)) == elided(s, depth, seen),
    decreases s,
{
    lemma_names_differ();
    let out = truncated(s, depth, seen);
    if depth == 0 {
        assert(call_in_front(out, ELLIPSIS_NAME@));
        lemma_restored_ellipsis_call(CALL_SITE);
    } else if s.len() == 0 {
    } else {
        let rest = s.subrange(1, s.len() as int);
        match s[0] {
            TokenView::Group { delimiter, stream } => {
                lemma_restore_after_truncate(stream, (depth - 1) as nat, 0);
                lemma_restore_after_truncate(rest, depth, seen);
                assert(out.subrange(1, out.len() as int) =~= truncated(rest, depth, seen));
            },
            TokenView::Punct { ch, joint, pos } => {
                if ch == ';' && seen + 1 >= depth {
                    let call = placeholder_call(ELLIPSIS_NAME@, pos);
                    assert(out.subrange(1, out.len() as int) =~= call);
                    lemma_restored_ellipsis_call(pos);
                } else if ch == ';' {
                    lemma_restore_after_truncate(rest, depth, seen + 1);
                    assert(out.subrange(1, out.len() as int) =~= truncated(rest, depth, seen + 1));
                } else {
                    lemma_restore_after_truncate(rest, depth, seen);
                    assert(out.subrange(1, out.len() as int) =~= truncated(rest, depth, seen));
                }
            },
            TokenView::Ident { name, pos } => {
                lemma_restore_after_truncate(rest, depth, seen);
                if name == SELF_REF@ {
                    assert(call_in_front(out, SELF_REF_NAME@));
                    assert(!call_in_front(out, ELLIPSIS_NAME@));
                    assert(out.subrange(3, out.len() as int) =~= truncated(rest, depth, seen));
                } else {
                    lemma_no_call_created(s, depth, seen, ELLIPSIS_NAME@);
                    lemma_no_call_created(s, depth, seen, SELF_REF_NAME@);
                    assert(out.subrange(1, out.len() as int) =~= truncated(rest, depth, seen));
                }
            },
            TokenView::Literal { .. } => {
                lemma_restore_after_truncate(rest, depth, seen);
                assert(out.subrange(1, out.len() as int) =~= truncated(rest, depth, seen));
            },
        }
    }
}

/// Where truncation cuts nothing, eliding changes nothing.
pub proof fn lemma_elided_when_fits(s: Seq<TokenView>, depth: nat, seen: nat)
    requires
        fits(s, depth, seen),
    ensures
        elided(s, depth, seen) == s,
    decreases s,
{
    if s.len() > 0 {
        let rest = s.subrange(1, s.len() as int);
        match s[0] {
            TokenView::Group { delimiter, stream } => {
                lemma_elided_when_fits(stream, (depth - 1) as nat, 0);
                lemma_elided_when_fits(rest, depth, seen);
            },
            TokenView::Punct { ch, .. } => {
                if ch == ';' {
                    lemma_elided_when_fits(rest, depth, seen + 1);
                } else {
                    lemma_elided_when_fits(rest, depth, seen);
                }
            },
            _ => {
                lemma_elided_when_fits(rest, depth, seen);
            },
        }
        assert(seq![s[0]] + rest =~= s);
    } else {
        assert(s =~= Seq::<TokenView>::empty());
    }
}

/// A stream that truncation at `depth` cuts nothing from, and that holds no
/// placeholder call of its own, comes back unchanged from truncation
/// followed by its inverse.
pub proof fn lemma_round_trip_when_fits(s: Seq<TokenView>, depth: nat)
    requires
        placeholder_free(s, depth, 0),
        fits(s, depth, 0),
    ensures
        restored(truncated(s, depth, 0)) == s,
{
    lemma_restore_after_truncate(s, depth, 0);
    lemma_elided_when_fits(s, depth, 0);
}

/// What is left at a smaller depth can be had from what is left at a larger
/// one: cutting the deeper result again at the smaller depth gives the
/// shallower result. So nothing that the smaller depth preserves is lost
/// at the larger.
pub proof fn lemma_shallower_from_deeper(
    s: Seq<TokenView>,
    d1: nat,
    seen1: nat,
    d2: nat,
    seen2: nat,
)
    requires
        d1 <= d2,
        d1 - seen1 <= d2 - seen2,
    ensures
        elided(elided(s, d2, seen2), d1, seen1) == elided(s, d1, seen1),
    decreases s,
{
    let deep = elided(s, d2, seen2);
    if d1 == 0 || s.len() == 0 {
    } else {
        let rest = s.subrange(1, s.len() as int);
        match s[0] {
            TokenView::Group { delimiter, stream } => {
                lemma_shallower_from_deeper(stream, (d1 - 1) as nat, 0, (d2 - 1) as nat, 0);
                lemma_shallower_from_deeper(rest, d1, seen1, d2, seen2);
                assert(deep.subrange(1, deep.len() as int) =~= elided(rest, d2, seen2));
            },
            TokenView::Punct { ch, joint, pos } => {
                if ch == ';' && seen2 + 1 >= d2 {
                } else if ch == ';' {
                    if seen1 + 1 < d1 {
                        lemma_shallower_from_deeper(rest, d1, seen1 + 1, d2, seen2 + 1);
                    }
                    assert(deep.subrange(1, deep.len() as int) =~= elided(rest, d2, seen2 + 1));
                } else {
                    lemma_shallower_from_deeper(rest, d1, seen1, d2, seen2);
                    assert(deep.subrange(1, deep.len() as int) =~= elided(rest, d2, seen2));
                }
            },
            _ => {
                lemma_shallower_from_deeper(rest, d1, seen1, d2, seen2);
                assert(deep.subrange(1, deep.len() as int) =~= elided(rest, d2, seen2));
            },
        }
    }
}

/// A larger depth, with no more terminators gone by, keeps at least as many
/// tokens.
pub proof fn lemma_kept_monotonic(s: Seq<TokenView>, d1: nat, seen1: nat, d2: nat, seen2: nat)
    requires
        d1 <= d2,
        d1 - seen1 <= d2 - seen2,
    ensures
        kept(s, d1, seen1) <= kept(s, d2, seen2),
    decreases s,
{
    if d1 == 0 || s.len() == 0 {
    } else {
        let rest = s.subrange(1, s.len() as int);
        match s[0] {
            TokenView::Group { stream, .. } => {
                lemma_kept_monotonic(stream, (d1 - 1) as nat, 0, (d2 - 1) as nat, 0);
                lemma_kept_monotonic(rest, d1, seen1, d2, seen2);
            },
            TokenView::Punct { ch, .. } => {
                if ch == ';' {
                    if seen1 + 1 < d1 {
                        lemma_kept_monotonic(rest, d1, seen1 + 1, d2, seen2 + 1);
                    }
                } else {
                    lemma_kept_monotonic(rest, d1, seen1, d2, seen2);
                }
            },
            _ => {
                lemma_kept_monotonic(rest, d1, seen1, d2, seen2);
            },
        }
    }
}

/// How many tokens of the stream it was cut from a truncated stream holds:
/// every token of it, at every level, but those of an ellipsis placeholder,
/// which stand for nothing that is there, and with the three tokens of a
/// self-reference placeholder counted as the one token they stand for.
pub open spec fn preserved(out: Seq<TokenView>) -> nat
    decreases out,
{
    if out.len() == 0 {
        0
    } else if call_in_front(out, ELLIPSIS_NAME@) {
        preserved(out.subrange(3, out.len() as int))
    } else if call_in_front(out, SELF_REF_NAME@) {
        1 + preserved(out.subrange(3, out.len() as int))
    } else {
        let rest = out.subrange(1, out.len() as int);
        match out[0] {
            TokenView::Group { stream, .. } => 1 + preserved(stream) + preserved(rest),
            _ => 1 + preserved(rest),
        }
    }
}

proof fn lemma_preserved_ellipsis_call(pos: u64)
    ensures
        preserved(placeholder_call(ELLIPSIS_NAME@, pos)) == 0,
{
    let call = placeholder_call(ELLIPSIS_NAME@, pos);
    let tail = call.subrange(3, call.len() as int);
    assert(call_in_front(call, ELLIPSIS_NAME@));
    assert(tail =~= Seq::<TokenView>::empty());
    assert(preserved(tail) == 0);
}

/// What truncation at `depth` returns holds as many tokens of the stream
/// as [`kept`] counts, for every stream that holds no placeholder call of
/// its own above the cuts.
pub proof fn lemma_kept_counts_what_is_returned(s: Seq<TokenView>, depth: nat, seen: nat)
    requires
        placeholder_free(s, depth, seen),
    ensures
        preserved(truncated(s, depth, seen)) == kept(s, depth, seen),
    decreases s,
{
    lemma_names_differ();
    let out = truncated(s, depth, seen);
    if depth == 0 {
        lemma_preserved_ellipsis_call(CALL_SITE);
    } else if s.len() == 0 {
    } else {
        let rest = s.subrange(1, s.len() as int);
        match s[0] {
            TokenView::Group { delimiter, stream } => {
                lemma_kept_counts_what_is_returned(stream, (depth - 1) as nat, 0);
                lemma_kept_counts_what_is_returned(rest, depth, seen);
                assert(out.subrange(1, out.len() as int) =~= truncated(rest, depth, seen));
            },
            TokenView::Punct { ch, joint, pos } => {
                if ch == ';' && seen + 1 >= depth {
                    let call = placeholder_call(ELLIPSIS_NAME@, pos);
                    assert(out.subrange(1, out.len() as int) =~= call);
                    lemma_preserved_ellipsis_call(pos);
                } else if ch == ';' {
                    lemma_kept_counts_what_is_returned(rest, depth, seen + 1);
                    assert(out.subrange(1, out.len() as int) =~= truncated(rest, depth, seen + 1));
                } else {
                    lemma_kept_counts_what_is_returned(rest, depth, seen);
                    assert(out.subrange(1, out.len() as int) =~= truncated(rest, depth, seen));
                }
            },
            TokenView::Ident { name, pos } => {
                lemma_kept_counts_what_is_returned(rest, depth, seen);
                if name == SELF_REF@ {
                    assert(call_in_front(out, SELF_REF_NAME@));
                    assert(!call_in_front(out, ELLIPSIS_NAME@));
                    assert(out.subrange(3, out.len() as int) =~= truncated(rest, depth, seen));
                } else {
                    lemma_no_call_created(s, depth, seen, ELLIPSIS_NAME@);
                    lemma_no_call_created(s, depth, seen, SELF_REF_NAME@);
                    assert(out.subrange(1, out.len() as int) =~= truncated(rest, depth, seen));
                }
            },
            TokenView::Literal { .. } => {
                lemma_kept_counts_what_is_returned(rest, depth, seen);
                assert(out.subrange(1, out.len() as int) =~= truncated(rest, depth, seen));
            },
        }
    }
}

/// Raising the depth never lowers how many tokens of a stream the
/// truncated stream holds.
pub proof fn lemma_deeper_returns_more(s: Seq<TokenView>, d1: nat, d2: nat)
    requires
        d1 <= d2,
        placeholder_free(s, d1, 0),
        placeholder_free(s, d2, 0),
    ensures
        preserved(truncated(s, d1, 0)) <= preserved(truncated(s, d2, 0)),
{
    lemma_kept_counts_what_is_returned(s, d1, 0);
    lemma_kept_counts_what_is_returned(s, d2, 0);
    lemma_kept_monotonic(s, d1, 0, d2, 0);
}

/// Raising the depth never lowers the number of tokens that truncation keeps.
pub proof fn lemma_deeper_keeps_more(s: Seq<TokenView>, d1: nat, d2: nat)
    requires
        d1 <= d2,
    ensures
        kept(s, d1, 0) <= kept(s, d2, 0),
{
    lemma_kept_monotonic(s, d1, 0, d2, 0);
}

} // verus!
