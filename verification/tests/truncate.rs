use proc_debug::token::{duplicate_stream, render, Delimiter, Token, CALL_SITE};
use proc_debug::truncate::{
    simplify_and_replace, unreplace, DEFAULT_DEPTH, ELLIPSIS_NAME, SELF_REF, SELF_REF_NAME,
};

fn id(name: &str, pos: u64) -> Token {
    Token::Ident { name: name.to_string(), pos }
}

fn p(ch: char, pos: u64) -> Token {
    Token::Punct { ch, joint: false, pos }
}

fn joint(ch: char, pos: u64) -> Token {
    Token::Punct { ch, joint: true, pos }
}

fn lit(text: &str, pos: u64) -> Token {
    Token::Literal { text: text.to_string(), pos }
}

fn group(delimiter: Delimiter, stream: Vec<Token>) -> Token {
    Token::Group { delimiter, stream }
}

fn ellipsis_call(pos: u64) -> Vec<Token> {
    vec![id(ELLIPSIS_NAME, pos), p('!', pos), group(Delimiter::Brace, vec![])]
}

fn dots(pos: u64) -> Vec<Token> {
    vec![joint('.', pos), joint('.', pos), p('.', pos)]
}

/// `fn f ( ) { a ; b ; { c ; d ; } e ; }` with positions 1, 2, ...
fn sample() -> Vec<Token> {
    vec![
        id("fn", 1),
        id("f", 2),
        group(Delimiter::Parenthesis, vec![]),
        group(
            Delimiter::Brace,
            vec![
                id("a", 3),
                p(';', 4),
                id("b", 5),
                p(';', 6),
                group(
                    Delimiter::Brace,
                    vec![id("c", 7), p(';', 8), id("d", 9), p(';', 10)],
                ),
                id("e", 11),
                p(';', 12),
            ],
        ),
    ]
}

fn count(tokens: &[Token]) -> usize {
    tokens
        .iter()
        .map(|t| match t {
            Token::Group { stream, .. } => 1 + count(stream),
            _ => 1,
        })
        .sum()
}

#[test]
fn depth_zero_is_one_placeholder() {
    assert_eq!(simplify_and_replace(&sample(), 0), ellipsis_call(CALL_SITE));
    assert_eq!(simplify_and_replace(&vec![], 0), ellipsis_call(CALL_SITE));
    assert_eq!(
        render(&simplify_and_replace(&sample(), 0)),
        "__proc_debug_ellipsis ! { }"
    );
}

#[test]
fn empty_stream_stays_empty_at_positive_depth() {
    assert_eq!(simplify_and_replace(&vec![], 1), vec![]);
    assert_eq!(unreplace(&vec![]), vec![]);
}

#[test]
fn terminators_are_counted_per_level() {
    let flat = vec![id("a", 1), p(';', 2), id("b", 3), p(';', 4), id("c", 5), p(';', 6)];
    let mut want = vec![id("a", 1), p(';', 2), id("b", 3), p(';', 4)];
    want.extend(ellipsis_call(4));
    assert_eq!(simplify_and_replace(&flat, 2), want);
    let mut want1 = vec![id("a", 1), p(';', 2)];
    want1.extend(ellipsis_call(2));
    assert_eq!(simplify_and_replace(&flat, 1), want1);
    let mut want3 = duplicate_stream(&flat);
    want3.extend(ellipsis_call(6));
    assert_eq!(simplify_and_replace(&flat, 3), want3);
    assert_eq!(simplify_and_replace(&flat, 4), flat);
}

#[test]
fn groups_are_cut_one_level_less() {
    let out = simplify_and_replace(&sample(), 2);
    let mut body = vec![id("a", 3), p(';', 4)];
    body.extend(ellipsis_call(4));
    let want = vec![
        id("fn", 1),
        id("f", 2),
        group(Delimiter::Parenthesis, vec![]),
        group(Delimiter::Brace, body),
    ];
    assert_eq!(out, want);
    let out1 = simplify_and_replace(&sample(), 1);
    let want1 = vec![
        id("fn", 1),
        id("f", 2),
        group(Delimiter::Parenthesis, ellipsis_call(CALL_SITE)),
        group(Delimiter::Brace, ellipsis_call(CALL_SITE)),
    ];
    assert_eq!(out1, want1);
}

#[test]
fn deep_enough_keeps_everything() {
    assert_eq!(simplify_and_replace(&sample(), 5), sample());
    assert_eq!(simplify_and_replace(&sample(), usize::MAX), sample());
}

#[test]
fn a_level_with_as_many_terminators_as_the_depth_is_cut_at_its_end() {
    assert_eq!(DEFAULT_DEPTH, 4);
    let mut inner = vec![id("c", 7), p(';', 8), id("d", 9), p(';', 10)];
    inner.extend(ellipsis_call(10));
    let mut body = vec![
        id("a", 3),
        p(';', 4),
        id("b", 5),
        p(';', 6),
        group(Delimiter::Brace, inner),
        id("e", 11),
        p(';', 12),
    ];
    body.extend(ellipsis_call(12));
    let want = vec![
        id("fn", 1),
        id("f", 2),
        group(Delimiter::Parenthesis, vec![]),
        group(Delimiter::Brace, body),
    ];
    assert_eq!(simplify_and_replace(&sample(), DEFAULT_DEPTH), want);
}

#[test]
fn self_reference_becomes_a_call_and_comes_back() {
    let tokens = vec![id(SELF_REF, 7), joint(':', 8), p(':', 9), id("x", 10)];
    let cut = simplify_and_replace(&tokens, 3);
    assert_eq!(
        cut,
        vec![
            id(SELF_REF_NAME, 7),
            p('!', 7),
            group(Delimiter::Brace, vec![]),
            joint(':', 8),
            p(':', 9),
            id("x", 10),
        ]
    );
    assert_eq!(render(&cut), "__proc_debug_dollar_crate ! { } :: x");
    assert_eq!(unreplace(&cut), tokens);
}

#[test]
fn truncate_then_restore_keeps_what_is_above_the_cut() {
    let back = unreplace(&simplify_and_replace(&sample(), 2));
    let mut body = vec![id("a", 3), p(';', 4)];
    body.extend(dots(4));
    let want = vec![
        id("fn", 1),
        id("f", 2),
        group(Delimiter::Parenthesis, vec![]),
        group(Delimiter::Brace, body),
    ];
    assert_eq!(back, want);
    assert_eq!(render(&back), "fn f () { a ; ... }");
    assert_eq!(unreplace(&simplify_and_replace(&sample(), 5)), sample());
    assert_eq!(unreplace(&simplify_and_replace(&sample(), 0)), dots(CALL_SITE));
}

#[test]
fn input_with_a_reserved_call_is_not_restored_to_itself() {
    let tokens = vec![
        id(ELLIPSIS_NAME, 1),
        p('!', 2),
        group(Delimiter::Brace, vec![id("x", 3)]),
    ];
    assert_eq!(unreplace(&simplify_and_replace(&tokens, 5)), dots(1));
}

#[test]
fn deeper_keeps_at_least_as_much() {
    let mut last = 0;
    for depth in 0..6 {
        let kept = count(&unreplace(&simplify_and_replace(&sample(), depth)))
            - 3 * count_dots(&unreplace(&simplify_and_replace(&sample(), depth)));
        assert!(kept >= last, "depth {} keeps {} after {}", depth, kept, last);
        last = kept;
    }
    assert_eq!(last, count(&sample()));
}

fn count_dots(tokens: &[Token]) -> usize {
    let mut n = 0;
    let mut i = 0;
    while i < tokens.len() {
        match &tokens[i] {
            Token::Punct { ch: '.', joint: true, .. } => {
                n += 1;
                i += 3;
            }
            Token::Group { stream, .. } => {
                n += count_dots(stream);
                i += 1;
            }
            _ => i += 1,
        }
    }
    n
}

#[test]
fn other_macro_calls_are_left_alone() {
    let tokens = vec![
        id("vec", 1),
        p('!', 2),
        group(Delimiter::Brace, vec![id("x", 3)]),
        id(ELLIPSIS_NAME, 4),
        p('!', 5),
        group(Delimiter::Parenthesis, vec![]),
        id(ELLIPSIS_NAME, 6),
        p('!', 7),
    ];
    assert_eq!(unreplace(&tokens), tokens);
}

#[test]
fn placeholders_are_restored_inside_groups() {
    let tokens = vec![group(
        Delimiter::Bracket,
        vec![
            lit("1", 1),
            id(ELLIPSIS_NAME, 2),
            p('!', 2),
            group(Delimiter::Brace, vec![]),
            id(SELF_REF_NAME, 3),
            p('!', 3),
            group(Delimiter::Brace, vec![]),
        ],
    )];
    let mut inner = vec![lit("1", 1)];
    inner.extend(dots(2));
    inner.push(id(SELF_REF, 3));
    assert_eq!(unreplace(&tokens), vec![group(Delimiter::Bracket, inner)]);
}

#[test]
fn rendering_follows_spacing_and_delimiters() {
    let tokens = vec![
        id("a", 0),
        joint(':', 0),
        p(':', 0),
        id("b", 0),
        group(Delimiter::Parenthesis, vec![lit("1", 0), p(',', 0), lit("\"s\"", 0)]),
        group(Delimiter::Brace, vec![id("x", 0)]),
        group(Delimiter::Brace, vec![]),
        group(Delimiter::Bracket, vec![]),
        group(Delimiter::Invisible, vec![id("y", 0)]),
        joint('\'', 0),
        id("a", 0),
    ];
    assert_eq!(render(&tokens), "a :: b (1 , \"s\") { x } { } [] y 'a");
    assert_eq!(render(&vec![]), "");
}

#[test]
fn duplicate_is_equal() {
    assert_eq!(duplicate_stream(&sample()), sample());
    assert_eq!(sample()[3].duplicate(), sample().remove(3));
    assert_eq!(Token::ident("a", 1), id("a", 1));
    assert_eq!(Token::punct(';', true, 2), joint(';', 2));
    assert_eq!(Token::literal("1u8", 3), lit("1u8", 3));
    assert_eq!(
        Token::group(Delimiter::Brace, vec![id("a", 1)]),
        group(Delimiter::Brace, vec![id("a", 1)])
    );
}
