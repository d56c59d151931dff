//! The token tree: the recursive value that every other module works on.
//!
//! A stream is a sequence of tokens. A token is a leaf (an identifier, a
//! punctuation character or a literal, each with the position it came
//! from) or a group: a delimiter around a nested stream. Groups are balanced
//! by construction, since a group owns its stream.

use vstd::prelude::*;
use crate::text::{chars_of, push_chars, string_of};

verus! {

/// The position of a token that was made up rather than read from a source.
pub const CALL_SITE: u64 = 0;

/// How a group is delimited.
#[derive(Clone, Copy, Debug, PartialEq, Eq, Structural)]
pub enum Delimiter {
    Parenthesis,
    Brace,
    Bracket,
    Invisible,
}

/// One node of a token tree.
///
/// `pos` names the source position of a leaf; what the number means is up
/// to whoever built the tree. `joint` says that a punctuation character is
/// immediately followed by the next token, as the two colons of `::` are.
#[derive(Debug, PartialEq, Eq)]
pub enum Token {
    Ident { name: String, pos: u64 },
    Punct { ch: char, joint: bool, pos: u64 },
    Literal { text: String, pos: u64 },
    Group { delimiter: Delimiter, stream: Vec<Token> },
}

/// The mathematical value of a [`Token`].
pub enum TokenView {
    Ident { name: Seq<char>, pos: u64 },
    Punct { ch: char, joint: bool, pos: u64 },
    Literal { text: Seq<char>, pos: u64 },
    Group { delimiter: Delimiter, stream: Seq<TokenView> },
}

/// The value of a token: that of a leaf holds the leaf's fields, that of a
/// group the values of the tokens in its stream.
pub open spec fn token_value(t: Token) -> TokenView
    decreases t,
{
    match t {
        Token::Ident { name, pos } => TokenView::Ident { name: name@, pos },
        Token::Punct { ch, joint, pos } => TokenView::Punct { ch, joint, pos },
        Token::Literal { text, pos } => TokenView::Literal { text: text@, pos },
        Token::Group { delimiter, stream } => TokenView::Group {
            delimiter,
            stream: Seq::new(
                stream@.len(),
                |i: int|
                    if 0 <= i < stream@.len() {
                        token_value(stream@[i])
                    } else {
                        arbitrary()
                    },
            ),
        },
    }
}

impl View for Token {
    type V = TokenView;

    open spec fn view(&self) -> TokenView {
        token_value(*self)
    }
}

/// The mathematical value of a stream: the value of each of its tokens.
pub open spec fn stream_view(s: Seq<Token>) -> Seq<TokenView> {
    Seq::new(s.len(), |i: int| s[i]@)
}

/// The value of a group is its delimiter around the value of its stream.
pub proof fn lemma_group_view(t: Token)
    requires
        t is Group,
    ensures
        t@ == (TokenView::Group {
            delimiter: t->delimiter,
            stream: stream_view(t->stream@),
        }),
{
    match t {
        Token::Group { delimiter, stream } => {
            let inner = stream@;
            let viewed = t@->stream;
            assert(viewed.len() == inner.len());
            assert(viewed =~= stream_view(inner));
        },
        _ => {},
    }
}

/// The value of a stream grown by one token.
pub proof fn lemma_stream_view_push(s: Seq<Token>, t: Token)
    ensures
        stream_view(s.push(t)) == stream_view(s).push(t@),
{
    assert(stream_view(s.push(t)) =~= stream_view(s).push(t@));
}

/// What opens a group in text.
pub open spec fn opening(d: Delimiter) -> Seq<char> {
    match d {
        Delimiter::Parenthesis => seq!['('],
        Delimiter::Brace => seq!['{', ' '],
        Delimiter::Bracket => seq!['['],
        Delimiter::Invisible => seq![],
    }
}

/// What closes a group in text. A brace group with content has a space
/// before its closing brace.
pub open spec fn closing(d: Delimiter, content: bool) -> Seq<char> {
    match d {
        Delimiter::Parenthesis => seq![')'],
        Delimiter::Brace => if content {
            seq![' ', '}']
        } else {
            seq!['}']
        },
        Delimiter::Bracket => seq![']'],
        Delimiter::Invisible => seq![],
    }
}

/// What stands between the token at index `i` and the one before it: a
/// space, unless the token is the first or follows joint punctuation.
pub open spec fn separator(s: Seq<TokenView>, i: int) -> Seq<char> {
    if i <= 0 || i > s.len() {
        seq![]
    } else if s[i - 1] matches TokenView::Punct { joint, .. } && joint {
        seq![]
    } else {
        seq![' ']
    }
}

/// The text of one token: the name, the character or the literal's text of
/// a leaf; for a group, the text of its stream inside its delimiters.
pub open spec fn token_text(t: TokenView) -> Seq<char>
    decreases t,
{
    match t {
        TokenView::Ident { name, .. } => name,
        TokenView::Punct { ch, .. } => seq![ch],
        TokenView::Literal { text, .. } => text,
        TokenView::Group { delimiter, stream } => opening(delimiter) + rendered_from(stream, 0)
            + closing(delimiter, stream.len() > 0),
    }
}

/// The text of the tokens of `s` from index `i` on.
pub open spec fn rendered_from(s: Seq<TokenView>, i: int) -> Seq<char>
    decreases s, s.len() - i,
{
    if i < 0 || i >= s.len() {
        seq![]
    } else {
        separator(s, i) + token_text(s[i]) + rendered_from(s, i + 1)
    }
}

/// The text of a stream: its tokens one space apart, none after joint
/// punctuation, each group inside its delimiters.
pub open spec fn rendered(s: Seq<TokenView>) -> Seq<char> {
    rendered_from(s, 0)
}

impl Token {
    /// An identifier.
    pub fn ident(name: &str, pos: u64) -> (t: Token)
        ensures
            t@ == (TokenView::Ident { name: name@, pos }),
    {
        Token::Ident { name: name.to_owned(), pos }
    }

    /// A punctuation character.
    pub fn punct(ch: char, joint: bool, pos: u64) -> (t: Token)
        ensures
            t@ == (TokenView::Punct { ch, joint, pos }),
    {
        Token::Punct { ch, joint, pos }
    }

    /// A literal, by its source text.
    pub fn literal(text: &str, pos: u64) -> (t: Token)
        ensures
            t@ == (TokenView::Literal { text: text@, pos }),
    {
        Token::Literal { text: text.to_owned(), pos }
    }

    /// A group around `stream`.
    pub fn group(delimiter: Delimiter, stream: Vec<Token>) -> (t: Token)
        ensures
            t@ == (TokenView::Group { delimiter, stream: stream_view(stream@) }),
    {
        let t = Token::Group { delimiter, stream };
        proof {
            lemma_group_view(t);
        }
        t
    }

    /// A copy of the token and of all that is nested in it.
    pub fn duplicate(&self) -> (t: Token)
        ensures
            t@ == self@,
        decreases self, 0nat,
    {
        match self {
            Token::Ident { name, pos } => Token::Ident { name: name.clone(), pos: *pos },
            Token::Punct { ch, joint, pos } => Token::Punct { ch: *ch, joint: *joint, pos: *pos },
            Token::Literal { text, pos } => Token::Literal { text: text.clone(), pos: *pos },
            Token::Group { delimiter, stream } => {
                let inner = duplicate_stream(stream);
                proof {
                    lemma_group_view(*self);
                }
                Token::group(*delimiter, inner)
            },
        }
    }
}

/// A copy of a stream.
pub fn duplicate_stream(tokens: &Vec<Token>) -> (out: Vec<Token>)
    ensures
        stream_view(out@) == stream_view(tokens@),
    decreases tokens, 1nat,
{
    let mut out: Vec<Token> = Vec::new();
    let mut i: usize = 0;
    while i < tokens.len()
        invariant
            i <= tokens.len(),
            stream_view(out@) == stream_view(tokens@.take(i as int)),
        decreases tokens.len() - i,
    {
        let t = tokens[i].duplicate();
        proof {
            lemma_stream_view_push(out@, t);
            assert(tokens@.take(i + 1) == tokens@.take(i as int).push(tokens@[i as int]));
            lemma_stream_view_push(tokens@.take(i as int), tokens@[i as int]);
        }
        out.push(t);
        i += 1;
    }
    assert(tokens@.take(tokens.len() as int) == tokens@);
    out
}

fn render_token(t: &Token, out: &mut Vec<char>)
    ensures
        final(out)@ == old(out)@ + token_text(t@),
    decreases t, 0nat,
{
    match t {
        Token::Ident { name, .. } => {
            let cs = chars_of(name.as_str());
            push_chars(out, &cs);
        },
        Token::Punct { ch, .. } => {
            out.push(*ch);
            assert(out@ =~= old(out)@ + seq![*ch]);
        },
        Token::Literal { text, .. } => {
            let cs = chars_of(text.as_str());
            push_chars(out, &cs);
        },
        Token::Group { delimiter, stream } => {
            proof {
                lemma_group_view(*t);
            }
            match delimiter {
                Delimiter::Parenthesis => {
                    out.push('(');
                },
                Delimiter::Brace => {
                    out.push('{');
                    out.push(' ');
                },
                Delimiter::Bracket => {
                    out.push('[');
                },
                Delimiter::Invisible => {},
            }
            let ghost opened = out@;
            assert(opened =~= old(out)@ + opening(*delimiter));
            render_into(stream, out);
            let ghost inner = out@;
            match delimiter {
                Delimiter::Parenthesis => {
                    out.push(')');
                },
                Delimiter::Brace => {
                    if stream.len() > 0 {
                        out.push(' ');
                    }
                    out.push('}');
                },
                Delimiter::Bracket => {
                    out.push(']');
                },
                Delimiter::Invisible => {},
            }
            assert(out@ =~= inner + closing(*delimiter, stream@.len() > 0));
            assert(out@ =~= old(out)@ + (opening(*delimiter) + rendered_from(
                stream_view(stream@),
                0,
            ) + closing(*delimiter, stream@.len() > 0)));
        },
    }
}

fn render_into(tokens: &Vec<Token>, out: &mut Vec<char>)
    ensures
        final(out)@ == old(out)@ + rendered(stream_view(tokens@)),
    decreases tokens, 1nat,
{
    let ghost s = stream_view(tokens@);
    let mut i: usize = 0;
    let mut glue: bool = false;
    assert(out@ + rendered_from(s, 0) =~= old(out)@ + rendered_from(s, 0));
    while i < tokens.len()
        invariant
            i <= tokens.len(),
            s == stream_view(tokens@),
            glue == (i > 0 && (s[i as int - 1] matches TokenView::Punct { joint, .. } && joint)),
            out@ + rendered_from(s, i as int) == old(out)@ + rendered_from(s, 0),
        decreases tokens.len() - i,
    {
        let ghost before = out@;
        if i != 0 && !glue {
            out.push(' ');
        }
        let ghost spaced = out@;
        assert(spaced =~= before + separator(s, i as int));
        glue = match &tokens[i] {
            Token::Punct { joint, .. } => *joint,
            _ => false,
        };
        render_token(&tokens[i], out);
        proof {
            assert(out@ == spaced + token_text(s[i as int]));
            assert(out@ + rendered_from(s, i + 1) =~= before + (separator(s, i as int)
                + token_text(s[i as int]) + rendered_from(s, i + 1)));
        }
        i += 1;
    }
    assert(out@ =~= out@ + rendered_from(s, i as int));
}

/// The text of a stream, in the one form that this library gives it
/// wherever it runs.
pub fn render(tokens: &Vec<Token>) -> (out: String)
    ensures
        out@ == rendered(stream_view(tokens@)),
{
    let mut buf: Vec<char> = Vec::new();
    render_into(tokens, &mut buf);
    string_of(&buf)
}

} // verus!
