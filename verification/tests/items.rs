use wgsl_ln::conversions::ConversionError;
use wgsl_ln::items::{convert_all_rust_types_in_stream_to_wgsl_types, is_punct_char, puncts_are_valid};
use wgsl_ln::tokens::{GroupDelimiter, Spacing, TokenSpan, TokenTree};

fn ident(name: &str, at: usize) -> TokenTree {
    TokenTree::Ident { name: name.to_string(), span: TokenSpan::Source(at) }
}

fn punct(ch: char, spacing: Spacing, at: usize) -> TokenTree {
    TokenTree::Punct { ch, spacing, span: TokenSpan::Source(at) }
}

fn lit(text: &str, at: usize) -> TokenTree {
    TokenTree::Literal { text: text.to_string(), span: TokenSpan::Source(at) }
}

fn group(delimiter: GroupDelimiter, stream: Vec<TokenTree>) -> TokenTree {
    TokenTree::Group { delimiter, stream }
}

fn cs_ident(name: &str) -> TokenTree {
    TokenTree::Ident { name: name.to_string(), span: TokenSpan::CallSite }
}

fn cs_punct(ch: char, spacing: Spacing) -> TokenTree {
    TokenTree::Punct { ch, spacing, span: TokenSpan::CallSite }
}

fn cs_lit(text: &str) -> TokenTree {
    TokenTree::Literal { text: text.to_string(), span: TokenSpan::CallSite }
}

#[test]
fn a_type_becomes_its_wgsl_spelling() {
    // [Vec2<f32>; 4]
    let input = vec![group(
        GroupDelimiter::Bracket,
        vec![
            ident("Vec2", 0),
            punct('<', Spacing::Alone, 1),
            ident("f32", 2),
            punct('>', Spacing::Alone, 3),
            punct(';', Spacing::Alone, 4),
            lit("4", 5),
        ],
    )];
    assert_eq!(
        convert_all_rust_types_in_stream_to_wgsl_types(input),
        Ok(vec![
            cs_ident("array"),
            cs_punct('<', Spacing::Alone),
            cs_ident("vec2"),
            cs_punct('<', Spacing::Alone),
            cs_ident("f32"),
            cs_punct('>', Spacing::Alone),
            cs_punct(',', Spacing::Alone),
            cs_lit("4"),
            cs_punct('>', Spacing::Alone),
        ])
    );
}

#[test]
fn struct_fields_are_converted() {
    // struct S { a: f32, b: Vec3<u32> }
    let input = vec![
        ident("struct", 0),
        ident("S", 1),
        group(
            GroupDelimiter::Brace,
            vec![
                ident("a", 2),
                punct(':', Spacing::Alone, 3),
                ident("f32", 4),
                punct(',', Spacing::Alone, 5),
                ident("b", 6),
                punct(':', Spacing::Alone, 7),
                ident("Vec3", 8),
                punct('<', Spacing::Alone, 9),
                ident("u32", 10),
                punct('>', Spacing::Alone, 11),
            ],
        ),
    ];
    assert_eq!(
        convert_all_rust_types_in_stream_to_wgsl_types(input),
        Ok(vec![
            cs_ident("struct"),
            cs_ident("S"),
            group(
                GroupDelimiter::Brace,
                vec![
                    cs_ident("a"),
                    cs_punct(':', Spacing::Alone),
                    cs_ident("f32"),
                    cs_punct(',', Spacing::Alone),
                    cs_ident("b"),
                    cs_punct(':', Spacing::Alone),
                    cs_ident("vec3"),
                    cs_punct('<', Spacing::Alone),
                    cs_ident("u32"),
                    cs_punct('>', Spacing::Alone),
                ],
            ),
        ])
    );
}

#[test]
fn function_types_are_converted() {
    // fn f(v: Vec4<f32>) -> f32 { v }
    let input = vec![
        ident("fn", 0),
        ident("f", 1),
        group(
            GroupDelimiter::Parenthesis,
            vec![
                ident("v", 2),
                punct(':', Spacing::Alone, 3),
                ident("Vec4", 4),
                punct('<', Spacing::Alone, 5),
                ident("f32", 6),
                punct('>', Spacing::Alone, 7),
            ],
        ),
        punct('-', Spacing::Joint, 8),
        punct('>', Spacing::Alone, 9),
        ident("f32", 10),
        group(GroupDelimiter::Brace, vec![ident("v", 11)]),
    ];
    assert_eq!(
        convert_all_rust_types_in_stream_to_wgsl_types(input),
        Ok(vec![
            cs_ident("fn"),
            cs_ident("f"),
            group(
                GroupDelimiter::Parenthesis,
                vec![
                    cs_ident("v"),
                    cs_punct(':', Spacing::Alone),
                    cs_ident("vec4"),
                    cs_punct('<', Spacing::Alone),
                    cs_ident("f32"),
                    cs_punct('>', Spacing::Alone),
                ],
            ),
            cs_punct('-', Spacing::Joint),
            cs_punct('>', Spacing::Alone),
            cs_ident("f32"),
            group(GroupDelimiter::Brace, vec![cs_ident("v")]),
        ])
    );
}

#[test]
fn function_with_unsupported_type_fails() {
    // fn f(x: u8) {}
    let input = vec![
        ident("fn", 0),
        ident("f", 1),
        group(
            GroupDelimiter::Parenthesis,
            vec![ident("x", 2), punct(':', Spacing::Alone, 3), ident("u8", 4)],
        ),
        group(GroupDelimiter::Brace, vec![]),
    ];
    assert_eq!(
        convert_all_rust_types_in_stream_to_wgsl_types(input),
        Err(ConversionError::UnsupportedNumericType)
    );
}

#[test]
fn unrecognized_input_is_unchanged() {
    // let x = 1;
    let make = || {
        vec![
            ident("let", 0),
            ident("x", 1),
            punct('=', Spacing::Alone, 2),
            lit("1", 3),
            punct(';', Spacing::Alone, 4),
        ]
    };
    assert_eq!(convert_all_rust_types_in_stream_to_wgsl_types(make()), Ok(make()));
}

#[test]
fn punctuation_validity() {
    assert!(is_punct_char('#'));
    assert!(is_punct_char('\''));
    assert!(!is_punct_char('a'));
    assert!(!is_punct_char('('));
    assert!(puncts_are_valid(&vec![group(GroupDelimiter::Brace, vec![punct('+', Spacing::Alone, 0)])]));
    assert!(!puncts_are_valid(&vec![group(GroupDelimiter::Brace, vec![punct('(', Spacing::Alone, 0)])]));
}
