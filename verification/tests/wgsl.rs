use wgsl_ln::tokens::{GroupDelimiter, Spacing, TokenSpan, TokenTree};
use wgsl_ln::wgsl2::{
    check_wgsl, expand_wgsl, finish_wgsl, MacroOutput, span_index_at, wgsl2, wgsl_error_outcome, MacroFlavor, WgslError,
    WgslExpansion, WgslOutcome,
};

fn ident(name: &str, at: usize) -> TokenTree {
    TokenTree::Ident { name: name.to_string(), span: TokenSpan::Source(at) }
}

fn punct(ch: char, at: usize) -> TokenTree {
    TokenTree::Punct { ch, spacing: Spacing::Alone, span: TokenSpan::Source(at) }
}

fn cs_ident(name: &str) -> TokenTree {
    TokenTree::Ident { name: name.to_string(), span: TokenSpan::CallSite }
}

fn cs_punct(ch: char, spacing: Spacing) -> TokenTree {
    TokenTree::Punct { ch, spacing, span: TokenSpan::CallSite }
}

fn group(delimiter: GroupDelimiter, stream: Vec<TokenTree>) -> TokenTree {
    TokenTree::Group { delimiter, stream }
}

fn paste(prefix: &str, name: &str, at: usize, inner: &str, stream: Vec<TokenTree>) -> Vec<TokenTree> {
    vec![group(
        GroupDelimiter::Brace,
        vec![
            cs_ident("use"),
            cs_ident("crate"),
            cs_punct(':', Spacing::Joint),
            cs_punct(':', Spacing::Alone),
            cs_punct('*', Spacing::Alone),
            cs_punct(';', Spacing::Alone),
            TokenTree::Ident { name: format!("{}{}", prefix, name), span: TokenSpan::Source(at) },
            cs_punct('!', Spacing::Alone),
            group(
                GroupDelimiter::Parenthesis,
                vec![cs_ident(inner), cs_punct('!', Spacing::Alone), group(GroupDelimiter::Parenthesis, stream)],
            ),
        ],
    )]
}

#[test]
fn reference_expands_through_paste_macro() {
    // x = #hello;
    let input = vec![ident("x", 0), punct('=', 1), punct('#', 2), ident("hello", 3), punct(';', 4)];
    let expected = paste(
        "__wgsl_paste_",
        "hello",
        3,
        "wgsl",
        vec![ident("x", 0), punct('=', 1), ident("hello", 3), punct(';', 4)],
    );
    assert_eq!(wgsl2(input), WgslExpansion::Paste { tokens: expected });
}

#[test]
fn rust_to_wgsl_flavor_names() {
    let input = vec![punct('#', 0), ident("f", 1)];
    let expected = paste("__rust_to_wgsl_paste_", "f", 1, "_wgsl", vec![ident("f", 1)]);
    assert_eq!(expand_wgsl(input, MacroFlavor::RustToWgsl, false), WgslExpansion::Paste { tokens: expected });
}

#[test]
fn raw_reference_drops_r_hash_in_paste_name() {
    let input = vec![punct('#', 0), ident("r#foo", 1)];
    let expected = paste("__wgsl_paste_", "foo", 1, "wgsl", vec![ident("r#foo", 1)]);
    assert_eq!(wgsl2(input), WgslExpansion::Paste { tokens: expected });
}

#[test]
fn no_reference_is_rendered() {
    let input = vec![ident("fn", 0), punct('#', 1), ident("main", 2)];
    // `main` follows a `#`, so it is a reference; without the `#` it is not.
    let plain = vec![ident("fn", 0), ident("main", 2), group(GroupDelimiter::Parenthesis, vec![])];
    match wgsl2(input) {
        WgslExpansion::Paste { .. } => {},
        other => panic!("expected a paste expansion, got {:?}", other),
    }
    assert_eq!(
        wgsl2(plain),
        WgslExpansion::Render {
            stream: vec![ident("fn", 0), ident("main", 2), group(GroupDelimiter::Parenthesis, vec![])]
        }
    );
}

#[test]
fn span_lookup() {
    let starts = [0usize, 5, 10];
    assert_eq!(span_index_at(&starts, 0), 0);
    assert_eq!(span_index_at(&starts, 5), 1);
    assert_eq!(span_index_at(&starts, 7), 1);
    assert_eq!(span_index_at(&starts, 10), 2);
    assert_eq!(span_index_at(&starts, 12), 2);
    assert_eq!(span_index_at(&[3usize, 5], 1), 0);
    assert_eq!(span_index_at(&[0usize, 5, 5, 9], 5), 1);
    assert_eq!(span_index_at(&[4usize], 100), 0);
}

#[test]
fn error_outcomes() {
    let located = WgslError { offset: Some(6), message: "expected `;`".to_string() };
    assert_eq!(
        wgsl_error_outcome(located, &[0, 4, 8]),
        WgslOutcome::ErrorAt { span_index: 1, message: "Wgsl Error: expected `;`".to_string() }
    );
    let unlocated = WgslError { offset: None, message: "bad module".to_string() };
    assert_eq!(
        wgsl_error_outcome(unlocated, &[]),
        WgslOutcome::CompileError { message: "bad module".to_string() }
    );
}

#[test]
fn valid_source_passes() {
    let source = "fn double(x: f32) -> f32 { return x * 2.0; }";
    assert_eq!(check_wgsl(source, &[0, 3, 9]), Some(WgslOutcome::Valid));
}

#[test]
fn parse_error_is_reported_at_a_span() {
    let source = "fn broken( -> f32 { return 1.0; }";
    match check_wgsl(source, &[0, 3, 10]) {
        Some(WgslOutcome::ErrorAt { span_index, message }) => {
            assert!(span_index < 3);
            assert!(message.starts_with("Wgsl Error: "));
        },
        other => panic!("expected an error at a span, got {:?}", other),
    }
    assert_eq!(check_wgsl(source, &[]), None);
}

#[test]
fn type_error_is_not_valid() {
    let source = "fn f() -> f32 { return true; }";
    assert_ne!(check_wgsl(source, &[0]), Some(WgslOutcome::Valid));
}

#[test]
fn finishing_a_paste_gives_its_tokens() {
    let tokens = vec![ident("x", 0)];
    let expansion = WgslExpansion::Paste { tokens: vec![ident("x", 0)] };
    assert_eq!(finish_wgsl(expansion, "", &[], false, false), Some(MacroOutput::Tokens { tokens }));
}

#[test]
fn finishing_a_valid_source_gives_the_source() {
    let expansion = WgslExpansion::Render { stream: vec![] };
    let source = "fn double(x: f32) -> f32 { return x * 2.0; }";
    assert_eq!(
        finish_wgsl(expansion, source, &[0, 3, 9], false, false),
        Some(MacroOutput::Checked { outcome: WgslOutcome::Valid })
    );
}

#[test]
fn finishing_an_invalid_source_aborts_at_a_span() {
    let source = "fn broken( -> f32 { return 1.0; }";
    let expansion = WgslExpansion::Render { stream: vec![] };
    match finish_wgsl(expansion, source, &[0, 3, 10], false, false) {
        Some(MacroOutput::Checked { outcome: WgslOutcome::ErrorAt { span_index, message } }) => {
            assert!(span_index < 3);
            assert!(message.starts_with("Wgsl Error: "));
        },
        other => panic!("unexpected outcome {:?}", other),
    }
    let expansion = WgslExpansion::Render { stream: vec![] };
    assert_eq!(finish_wgsl(expansion, source, &[], false, false), None);
}

#[test]
fn naga_oil_sources_are_not_validated() {
    let source = "#import foo\nfn broken( -> f32 {}";
    let expansion = WgslExpansion::Render { stream: vec![] };
    assert_eq!(
        finish_wgsl(expansion, source, &[0], true, true),
        Some(MacroOutput::Checked { outcome: WgslOutcome::Valid })
    );
    let expansion = WgslExpansion::Render { stream: vec![] };
    assert_ne!(
        finish_wgsl(expansion, source, &[0], true, false),
        Some(MacroOutput::Checked { outcome: WgslOutcome::Valid })
    );
    let expansion = WgslExpansion::Render { stream: vec![] };
    assert_ne!(
        finish_wgsl(expansion, source, &[0], false, true),
        Some(MacroOutput::Checked { outcome: WgslOutcome::Valid })
    );
}
