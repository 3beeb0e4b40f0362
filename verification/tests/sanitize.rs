use wgsl_ln::sanitize::{is_naga_oil_name, sanitize_remaining, sanitize_wgsl, sanitize_wgsl_with};
use wgsl_ln::tokens::{GroupDelimiter, Spacing, TokenSpan, TokenTree};

fn ident(name: &str, at: usize) -> TokenTree {
    TokenTree::Ident { name: name.to_string(), span: TokenSpan::Source(at) }
}

fn punct(ch: char, at: usize) -> TokenTree {
    TokenTree::Punct { ch, spacing: Spacing::Alone, span: TokenSpan::Source(at) }
}

fn literal(text: &str, at: usize) -> TokenTree {
    TokenTree::Literal { text: text.to_string(), span: TokenSpan::Source(at) }
}

fn group(delimiter: GroupDelimiter, stream: Vec<TokenTree>) -> TokenTree {
    TokenTree::Group { delimiter, stream }
}

#[test]
fn tokens_without_hash_are_unchanged() {
    // fn hello(v: vec4<f32>) -> f32 { return v.x; }
    let make = || {
        vec![
            ident("fn", 0),
            ident("hello", 1),
            group(
                GroupDelimiter::Parenthesis,
                vec![ident("v", 2), punct(':', 3), ident("vec4", 4), punct('<', 5), ident("f32", 6), punct('>', 7)],
            ),
            punct('-', 8),
            punct('>', 9),
            ident("f32", 10),
            group(
                GroupDelimiter::Brace,
                vec![ident("return", 11), ident("v", 12), punct('.', 13), ident("x", 14), punct(';', 15)],
            ),
        ]
    };
    let (out, found) = sanitize_wgsl(make());
    assert_eq!(out, make());
    assert_eq!(found, None);
}

#[test]
fn reference_is_found_and_later_hashes_removed() {
    // return #hello(v.xy) + #hello(v.zw);
    let input = vec![
        ident("return", 0),
        punct('#', 1),
        ident("hello", 2),
        group(GroupDelimiter::Parenthesis, vec![ident("v", 3), punct('.', 4), ident("xy", 5)]),
        punct('+', 6),
        punct('#', 7),
        ident("hello", 8),
        group(GroupDelimiter::Parenthesis, vec![ident("v", 9), punct('.', 10), ident("zw", 11)]),
        punct(';', 12),
    ];
    let (out, found) = sanitize_wgsl(input);
    assert_eq!(
        out,
        vec![
            ident("return", 0),
            ident("hello", 2),
            group(GroupDelimiter::Parenthesis, vec![ident("v", 3), punct('.', 4), ident("xy", 5)]),
            punct('+', 6),
            ident("hello", 8),
            group(GroupDelimiter::Parenthesis, vec![ident("v", 9), punct('.', 10), ident("zw", 11)]),
            punct(';', 12),
        ]
    );
    assert_eq!(found, Some(("hello".to_string(), TokenSpan::Source(2))));
}

#[test]
fn reference_inside_group_ends_search() {
    // fn world() { return #hello(1); } #hello #other
    let input = vec![
        ident("fn", 0),
        ident("world", 1),
        group(GroupDelimiter::Parenthesis, vec![]),
        group(
            GroupDelimiter::Brace,
            vec![
                ident("return", 2),
                punct('#', 3),
                ident("hello", 4),
                group(GroupDelimiter::Parenthesis, vec![literal("1", 5)]),
                punct(';', 6),
            ],
        ),
        punct('#', 7),
        ident("hello", 8),
        punct('#', 9),
        ident("other", 10),
    ];
    let (out, found) = sanitize_wgsl(input);
    assert_eq!(
        out,
        vec![
            ident("fn", 0),
            ident("world", 1),
            group(GroupDelimiter::Parenthesis, vec![]),
            group(
                GroupDelimiter::Brace,
                vec![
                    ident("return", 2),
                    ident("hello", 4),
                    group(GroupDelimiter::Parenthesis, vec![literal("1", 5)]),
                    punct(';', 6),
                ],
            ),
            ident("hello", 8),
            punct('#', 9),
            ident("other", 10),
        ]
    );
    assert_eq!(found, Some(("hello".to_string(), TokenSpan::Source(4))));
}

#[test]
fn leading_bracket_group_is_kept() {
    // [#ifndef] fn f
    let make = || {
        vec![
            group(GroupDelimiter::Bracket, vec![punct('#', 0), ident("ifndef", 1)]),
            ident("fn", 2),
            ident("f", 3),
        ]
    };
    let (out, found) = sanitize_wgsl(make());
    assert_eq!(out, make());
    assert_eq!(found, None);
}

#[test]
fn bracket_group_later_is_rewritten() {
    // x [#y] : the bracket group is not the first token, so it is searched
    let input = vec![ident("x", 0), group(GroupDelimiter::Bracket, vec![punct('#', 1), ident("y", 2)])];
    let (out, found) = sanitize_wgsl(input);
    assert_eq!(out, vec![ident("x", 0), group(GroupDelimiter::Bracket, vec![ident("y", 2)])]);
    assert_eq!(found, Some(("y".to_string(), TokenSpan::Source(2))));
}

#[test]
fn stray_hashes_are_dropped() {
    // # 1 + # # x
    let input = vec![punct('#', 0), literal("1", 1), punct('+', 2), punct('#', 3), punct('#', 4), ident("x", 5)];
    let (out, found) = sanitize_wgsl(input);
    assert_eq!(out, vec![literal("1", 1), punct('+', 2), ident("x", 5)]);
    assert_eq!(found, Some(("x".to_string(), TokenSpan::Source(5))));
}

#[test]
fn hash_without_reference_is_dropped() {
    // a # 1
    let input = vec![ident("a", 0), punct('#', 1), literal("1", 2)];
    let (out, found) = sanitize_wgsl(input);
    assert_eq!(out, vec![ident("a", 0), literal("1", 2)]);
    assert_eq!(found, None);
}

#[test]
fn hash_before_group_refers_to_nothing() {
    // # (a) b
    let input = vec![punct('#', 0), group(GroupDelimiter::Parenthesis, vec![ident("a", 1)]), ident("b", 2)];
    let (out, found) = sanitize_wgsl(input);
    assert_eq!(out, vec![group(GroupDelimiter::Parenthesis, vec![ident("a", 1)]), ident("b", 2)]);
    assert_eq!(found, None);
}

#[test]
fn attribute_is_not_a_reference() {
    // #[a] b
    let input = vec![punct('#', 0), group(GroupDelimiter::Bracket, vec![ident("a", 1)]), ident("b", 2)];
    let (out, found) = sanitize_wgsl(input);
    assert_eq!(out, vec![group(GroupDelimiter::Bracket, vec![ident("a", 1)]), ident("b", 2)]);
    assert_eq!(found, None);
}

#[test]
fn empty_stream() {
    let (out, found) = sanitize_wgsl(Vec::new());
    assert_eq!(out, Vec::new());
    assert_eq!(found, None);
}

#[test]
fn remaining_removes_hash_before_name_only() {
    // # hello # world # # hello { # hello }
    let input = vec![
        punct('#', 0),
        ident("hello", 1),
        punct('#', 2),
        ident("world", 3),
        punct('#', 4),
        punct('#', 5),
        ident("hello", 6),
        group(GroupDelimiter::Brace, vec![punct('#', 7), ident("hello", 8)]),
    ];
    let mut items = vec![ident("start", 9)];
    sanitize_remaining(input, &"hello".to_string(), &mut items);
    assert_eq!(
        items,
        vec![
            ident("start", 9),
            ident("hello", 1),
            punct('#', 2),
            ident("world", 3),
            punct('#', 4),
            ident("hello", 6),
            group(GroupDelimiter::Brace, vec![ident("hello", 8)]),
        ]
    );
}

#[test]
fn remaining_keeps_trailing_hash() {
    let mut items = Vec::new();
    sanitize_remaining(vec![ident("a", 0), punct('#', 1)], &"a".to_string(), &mut items);
    assert_eq!(items, vec![ident("a", 0), punct('#', 1)]);
}

#[test]
fn naga_oil_names() {
    for name in ["define_import_path", "import", "if", "ifdef", "ifndef", "else", "endif"] {
        assert!(is_naga_oil_name(name));
    }
    assert!(!is_naga_oil_name("hello"));
    assert!(!is_naga_oil_name("imports"));
    assert!(!is_naga_oil_name(""));
}

fn hash_count(s: &[TokenTree]) -> usize {
    s.iter()
        .map(|t| match t {
            TokenTree::Punct { ch: '#', .. } => 1,
            TokenTree::Group { stream, .. } => hash_count(stream),
            _ => 0,
        })
        .sum()
}

#[test]
fn each_reference_removes_a_hash() {
    // #x (#y) #x
    let mut tokens = vec![
        punct('#', 0),
        ident("x", 1),
        group(GroupDelimiter::Parenthesis, vec![punct('#', 2), ident("y", 3)]),
        punct('#', 4),
        ident("x", 5),
    ];
    let mut found_names = Vec::new();
    loop {
        let before = hash_count(&tokens);
        let (out, found) = sanitize_wgsl(tokens);
        assert!(hash_count(&out) <= before);
        match found {
            Some((name, _)) => {
                assert!(hash_count(&out) < before);
                found_names.push(name);
                tokens = out;
            },
            None => {
                tokens = out;
                break;
            },
        }
    }
    assert_eq!(found_names, vec!["x".to_string(), "y".to_string()]);
    assert_eq!(
        tokens,
        vec![ident("x", 1), group(GroupDelimiter::Parenthesis, vec![ident("y", 3)]), ident("x", 5)]
    );
}

#[test]
fn sanitizing_without_reference_is_idempotent() {
    // [#a] b # (c #) d #
    let input = vec![
        group(GroupDelimiter::Bracket, vec![punct('#', 0), ident("a", 1)]),
        ident("b", 2),
        punct('#', 3),
        group(GroupDelimiter::Parenthesis, vec![ident("c", 4), punct('#', 5)]),
        ident("d", 6),
        punct('#', 7),
    ];
    let (out, found) = sanitize_wgsl(input);
    assert_eq!(found, None);
    let expected = vec![
        group(GroupDelimiter::Bracket, vec![punct('#', 0), ident("a", 1)]),
        ident("b", 2),
        group(GroupDelimiter::Parenthesis, vec![ident("c", 4)]),
        ident("d", 6),
    ];
    assert_eq!(out, expected);
    assert_eq!(hash_count(&out[1..]), 0);
    let (again, found_again) = sanitize_wgsl(out);
    assert_eq!(found_again, None);
    assert_eq!(again, expected);
}

#[test]
fn naga_oil_directives_are_kept() {
    // #import foo; #bar
    let make = || vec![punct('#', 0), ident("import", 1), ident("foo", 2), punct(';', 3), punct('#', 4), ident("bar", 5)];
    let (out, found) = sanitize_wgsl_with(make(), true);
    assert_eq!(
        out,
        vec![
            TokenTree::Punct { ch: '#', spacing: Spacing::Joint, span: TokenSpan::CallSite },
            ident("import", 1),
            ident("foo", 2),
            punct(';', 3),
            ident("bar", 5),
        ]
    );
    assert_eq!(found, Some(("bar".to_string(), TokenSpan::Source(5))));
    let (out, found) = sanitize_wgsl_with(make(), false);
    assert_eq!(found, Some(("import".to_string(), TokenSpan::Source(1))));
    assert_eq!(out, vec![ident("import", 1), ident("foo", 2), punct(';', 3), punct('#', 4), ident("bar", 5)]);
}

#[test]
fn reference_rewrite_drops_hashes_before_and_strips_after() {
    // # a [#b] (c #) #x #y (#x) #x
    let input = vec![
        punct('#', 0),
        ident("a", 1),
        group(GroupDelimiter::Bracket, vec![punct('#', 2), ident("b", 3)]),
        group(GroupDelimiter::Parenthesis, vec![ident("c", 4), punct('#', 5)]),
        punct('#', 6),
        ident("x", 7),
        punct('#', 8),
        ident("y", 9),
        group(GroupDelimiter::Parenthesis, vec![punct('#', 10), ident("x", 11)]),
        punct('#', 12),
        ident("x", 13),
    ];
    let (out, found) = sanitize_wgsl(input);
    assert_eq!(found, Some(("a".to_string(), TokenSpan::Source(1))));
    assert_eq!(
        out,
        vec![
            ident("a", 1),
            group(GroupDelimiter::Bracket, vec![punct('#', 2), ident("b", 3)]),
            group(GroupDelimiter::Parenthesis, vec![ident("c", 4), punct('#', 5)]),
            punct('#', 6),
            ident("x", 7),
            punct('#', 8),
            ident("y", 9),
            group(GroupDelimiter::Parenthesis, vec![punct('#', 10), ident("x", 11)]),
            punct('#', 12),
            ident("x", 13),
        ]
    );
    // [#b] (c #) #x #y #x: the opening [...] is kept, the other hashes
    // before the reference are dropped
    let input = vec![
        group(GroupDelimiter::Bracket, vec![punct('#', 2), ident("b", 3)]),
        group(GroupDelimiter::Parenthesis, vec![ident("c", 0), punct('#', 1)]),
        punct('#', 4),
        ident("x", 5),
        punct('#', 6),
        ident("y", 7),
        punct('#', 8),
        ident("x", 9),
    ];
    let (out, found) = sanitize_wgsl(input);
    assert_eq!(found, Some(("x".to_string(), TokenSpan::Source(5))));
    assert_eq!(
        out,
        vec![
            group(GroupDelimiter::Bracket, vec![punct('#', 2), ident("b", 3)]),
            group(GroupDelimiter::Parenthesis, vec![ident("c", 0)]),
            ident("x", 5),
            punct('#', 6),
            ident("y", 7),
            ident("x", 9),
        ]
    );
}
