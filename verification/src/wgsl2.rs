//! What the WGSL macros expand to: a re-invocation through the paste macro
//! of an exported snippet, or WGSL source that naga has validated.

use vstd::prelude::*;

use crate::sanitize::{sanitize_spec, sanitize_with, sanitize_wgsl_with};
use crate::tokens::{trees_view, GroupDelimiter, Spacing, TokenSpan, TokenTree, Tree};

verus! {

/// Which of the two WGSL macros is expanding.
#[derive(Clone, Copy, Debug, PartialEq, Eq, Structural)]
pub enum MacroFlavor {
    /// `wgsl!`, whose input is WGSL.
    Wgsl,
    /// `rust_to_wgsl!`, whose input is Rust with its types already converted.
    RustToWgsl,
}

/// The prefix of the paste macro that an exported snippet defines.
pub open spec fn paste_prefix(flavor: MacroFlavor) -> Seq<char> {
    match flavor {
        MacroFlavor::Wgsl => "__wgsl_paste_"@,
        MacroFlavor::RustToWgsl => "__rust_to_wgsl_paste_"@,
    }
}

/// The macro that the paste macro invokes again on the rewritten tokens.
pub open spec fn inner_macro(flavor: MacroFlavor) -> Seq<char> {
    match flavor {
        MacroFlavor::Wgsl => "wgsl"@,
        MacroFlavor::RustToWgsl => "_wgsl"@,
    }
}

/// `name` without the `r#` of a raw identifier.
pub open spec fn unraw(name: Seq<char>) -> Seq<char> {
    if name.len() >= 2 && name[0] == 'r' && name[1] == '#' {
        name.subrange(2, name.len() as int)
    } else {
        name
    }
}

/// `name` without the `r#` of a raw identifier.
pub fn unraw_name(name: &str) -> (r: &str)
    ensures
        r@ == unraw(name@),
{
    let n = name.unicode_len();
    if n >= 2 && name.get_char(0) == 'r' && name.get_char(1) == '#' {
        name.substring_char(2, n)
    } else {
        name
    }
}

/// `ident` at the macro's call site.
pub open spec fn ident_at(name: Seq<char>) -> Tree {
    Tree::Ident(name, TokenSpan::CallSite)
}

/// A punctuation character at the macro's call site.
pub open spec fn punct_at(ch: char, spacing: Spacing) -> Tree {
    Tree::Punct(ch, spacing, TokenSpan::CallSite)
}

/// `{ use crate::*; <prefix><name>!(<inner>!(<stream>)) }`, where the paste
/// macro's name, formed from the reference's name without any `r#`, carries
/// the span of the reference.
pub open spec fn paste_tokens(flavor: MacroFlavor, name: Seq<char>, span: TokenSpan, stream: Seq<Tree>) -> Seq<Tree> {
    seq![
        Tree::Group(
            GroupDelimiter::Brace,
            seq![
                ident_at("use"@),
                ident_at("crate"@),
                punct_at(':', Spacing::Joint),
                punct_at(':', Spacing::Alone),
                punct_at('*', Spacing::Alone),
                punct_at(';', Spacing::Alone),
                Tree::Ident(paste_prefix(flavor) + unraw(name), span),
                punct_at('!', Spacing::Alone),
                Tree::Group(
                    GroupDelimiter::Parenthesis,
                    seq![
                        ident_at(inner_macro(flavor)),
                        punct_at('!', Spacing::Alone),
                        Tree::Group(GroupDelimiter::Parenthesis, stream),
                    ],
                ),
            ],
        ),
    ]
}

/// What a WGSL macro expands to.
#[derive(Debug, PartialEq, Eq)]
pub enum WgslExpansion {
    /// These tokens, which hand the input to the paste macro of the snippet
    /// it references.
    Paste { tokens: Vec<TokenTree> },
    /// The WGSL source written by these tokens, once naga has validated it.
    Render { stream: Vec<TokenTree> },
}

fn ident_token(name: String, span: TokenSpan) -> (t: TokenTree)
    ensures
        t@ == Tree::Ident(name@, span),
{
    TokenTree::Ident { name, span }
}

fn punct_token(ch: char, spacing: Spacing) -> (t: TokenTree)
    ensures
        t@ == punct_at(ch, spacing),
{
    TokenTree::Punct { ch, spacing, span: TokenSpan::CallSite }
}

/// The tokens of `paste_tokens`, built from the rewritten stream.
fn build_paste(flavor: MacroFlavor, name: String, span: TokenSpan, stream: Vec<TokenTree>) -> (r: Vec<TokenTree>)
    ensures
        trees_view(r@) == paste_tokens(flavor, name@, span, trees_view(stream@)),
{
    let ghost sv = trees_view(stream@);
    let (prefix, inner) = match flavor {
        MacroFlavor::Wgsl => ("__wgsl_paste_", "wgsl"),
        MacroFlavor::RustToWgsl => ("__rust_to_wgsl_paste_", "_wgsl"),
    };
    let mut call: Vec<TokenTree> = Vec::new();
    call.push(ident_token(String::from_str(inner), TokenSpan::CallSite));
    call.push(punct_token('!', Spacing::Alone));
    call.push(TokenTree::Group { delimiter: GroupDelimiter::Parenthesis, stream });
    let mut body: Vec<TokenTree> = Vec::new();
    body.push(ident_token(String::from_str("use"), TokenSpan::CallSite));
    body.push(ident_token(String::from_str("crate"), TokenSpan::CallSite));
    body.push(punct_token(':', Spacing::Joint));
    body.push(punct_token(':', Spacing::Alone));
    body.push(punct_token('*', Spacing::Alone));
    body.push(punct_token(';', Spacing::Alone));
    body.push(ident_token(String::from_str(prefix).concat(unraw_name(name.as_str())), span));
    body.push(punct_token('!', Spacing::Alone));
    body.push(TokenTree::Group { delimiter: GroupDelimiter::Parenthesis, stream: call });
    let mut out: Vec<TokenTree> = Vec::new();
    out.push(TokenTree::Group { delimiter: GroupDelimiter::Brace, stream: body });
    proof {
        reveal_with_fuel(trees_view, 10);
        let expected = paste_tokens(flavor, name@, span, sv);
        assert(trees_view(call@) =~= expected[0]->Group_1[8]->Group_1);
        assert(trees_view(body@) =~= expected[0]->Group_1);
        assert(trees_view(out@) =~= expected);
    }
    out
}

/// Decides what a WGSL macro expands to. The input is sanitised first; if
/// it references another exported snippet, the expansion hands the
/// rewritten tokens to that snippet's paste macro, and otherwise the
/// rewritten tokens are to be rendered and validated. With `naga_oil`,
/// naga_oil directives are kept (see `sanitize_with`).
pub fn expand_wgsl(stream: Vec<TokenTree>, flavor: MacroFlavor, naga_oil: bool) -> (r: WgslExpansion)
    ensures
        ({
            let sp = sanitize_with(trees_view(stream@), false, true, naga_oil);
            match sp.1 {
                Some((name, span)) => r matches WgslExpansion::Paste { tokens } && trees_view(tokens@)
                    == paste_tokens(flavor, name, span, sp.0),
                None => r matches WgslExpansion::Render { stream: s } && trees_view(s@) == sp.0,
            }
        }),
{
    let (sanitized, found) = sanitize_wgsl_with(stream, naga_oil);
    match found {
        Some((name, span)) => WgslExpansion::Paste { tokens: build_paste(flavor, name, span, sanitized) },
        None => WgslExpansion::Render { stream: sanitized },
    }
}

/// What `wgsl!` expands to; see `expand_wgsl`.
pub fn wgsl2(stream: Vec<TokenTree>) -> (r: WgslExpansion)
    ensures
        ({
            let sp = sanitize_spec(trees_view(stream@), false, true);
            match sp.1 {
                Some((name, span)) => r matches WgslExpansion::Paste { tokens } && trees_view(tokens@)
                    == paste_tokens(MacroFlavor::Wgsl, name, span, sp.0),
                None => r matches WgslExpansion::Render { stream: s } && trees_view(s@) == sp.0,
            }
        }),
{
    expand_wgsl(stream, MacroFlavor::Wgsl, false)
}

/// Whether `s` never decreases.
pub open spec fn ascending(s: Seq<usize>) -> bool {
    forall|i: int, j: int| 0 <= i <= j < s.len() ==> s[i] <= s[j]
}

/// Whether `r` is the index of the span, among spans starting at `starts`,
/// to which an error at `offset` is reported: the first span starting
/// exactly at `offset` if there is one, and otherwise the last span
/// starting before `offset`, or the first span when all start after it.
pub open spec fn covering_span(starts: Seq<usize>, offset: usize, r: int) -> bool {
    &&& 0 <= r < starts.len()
    &&& if exists|i: int| 0 <= i < starts.len() && starts[i] == offset {
        &&& starts[r] == offset
        &&& forall|j: int| 0 <= j < r ==> starts[j] < offset
    } else {
        ||| r == 0 && offset < starts[0]
        ||| starts[r] < offset && (r + 1 < starts.len() ==> offset < starts[r + 1])
    }
}

/// For ascending span starts, the span that covers an offset is unique: the
/// lookup has exactly one right answer.
pub proof fn law_covering_span_is_unique(starts: Seq<usize>, offset: usize, r1: int, r2: int)
    requires
        ascending(starts),
        covering_span(starts, offset, r1),
        covering_span(starts, offset, r2),
    ensures
        r1 == r2,
{
    if exists|i: int| 0 <= i < starts.len() && starts[i] == offset {
        if r1 < r2 {
            assert(starts[r1] < offset);
        } else if r2 < r1 {
            assert(starts[r2] < offset);
        }
    } else {
        if r1 < r2 {
            assert(starts[r1] <= starts[r2]);
            assert(starts[r1 + 1] <= starts[r2]);
        } else if r2 < r1 {
            assert(starts[r2] <= starts[r1]);
            assert(starts[r2 + 1] <= starts[r1]);
        }
    }
}

/// Finds the span to which an error at byte `offset` of the rendered source
/// is reported, given the (ascending) start offsets of the spans.
pub fn span_index_at(starts: &[usize], offset: usize) -> (r: usize)
    requires
        starts@.len() > 0,
    ensures
        r < starts@.len(),
        ascending(starts@) ==> covering_span(starts@, offset, r as int),
{
    let n = starts.len();
    let mut lo: usize = 0;
    let mut hi: usize = n;
    while lo < hi
        invariant
            n == starts@.len(),
            lo <= hi <= n,
            ascending(starts@) ==> forall|j: int| 0 <= j < lo ==> starts@[j] < offset,
            ascending(starts@) ==> forall|j: int| hi <= j < n ==> offset <= starts@[j],
        decreases hi - lo,
    {
        let mid = lo + (hi - lo) / 2;
        if starts[mid] < offset {
            lo = mid + 1;
        } else {
            hi = mid;
        }
    }
    if lo < n && starts[lo] == offset {
        lo
    } else if lo == 0 {
        0
    } else {
        lo - 1
    }
}

/// An error that naga reported for WGSL source.
#[derive(Debug, PartialEq, Eq)]
pub struct WgslError {
    /// The byte offset in the source of the error's first labelled span, if
    /// the error has one.
    pub offset: Option<usize>,
    /// The error's message.
    pub message: String,
}

/// What a WGSL macro does with its rendered source.
#[derive(Debug, PartialEq, Eq)]
pub enum WgslOutcome {
    /// The source is valid: the macro expands to it as a string literal.
    Valid,
    /// Abort with `message`, reported at the span with index `span_index`
    /// in the table of spans of the rendered source.
    ErrorAt { span_index: usize, message: String },
    /// Expand to `compile_error!(message)`.
    CompileError { message: String },
}

/// Whether `r` is what the macro does about an error with the given offset
/// and message, for spans starting at `starts`.
pub open spec fn outcome_of_error(offset: Option<usize>, message: Seq<char>, starts: Seq<usize>, r: WgslOutcome) -> bool {
    match offset {
        Some(at) => r matches WgslOutcome::ErrorAt { span_index, message: m } && m@ == "Wgsl Error: "@
            + message && span_index < starts.len() && (ascending(starts) ==> covering_span(
            starts,
            at,
            span_index as int,
        )),
        None => r matches WgslOutcome::CompileError { message: m } && m@ == message,
    }
}

/// What the macro does about a naga error: abort at the span that covers
/// the error's offset, or, for an error without one, expand to a
/// `compile_error!`.
pub fn wgsl_error_outcome(e: WgslError, starts: &[usize]) -> (r: WgslOutcome)
    requires
        e.offset is Some ==> starts@.len() > 0,
    ensures
        outcome_of_error(e.offset, e.message@, starts@, r),
{
    match e.offset {
        Some(offset) => WgslOutcome::ErrorAt {
            span_index: span_index_at(starts, offset),
            message: String::from_str("Wgsl Error: ").concat(e.message.as_str()),
        },
        None => WgslOutcome::CompileError { message: e.message },
    }
}

/// Whether naga's WGSL front end rejects `source`, and if so the byte offset
/// of the first labelled span of its error (if any) and its message.
pub uninterp spec fn naga_wgsl_parse_error(source: Seq<char>) -> Option<(Option<usize>, Seq<char>)>;

/// Whether naga's validator, with every validation flag and every
/// capability, rejects the module that naga's WGSL front end builds from
/// `source`, and if so the byte offset of the error's first span (if any)
/// and its message.
pub uninterp spec fn naga_wgsl_validation_error(source: Seq<char>) -> Option<(Option<usize>, Seq<char>)>;

/// Parses WGSL source with `naga::front::wgsl::parse_str`. Trusted: the
/// result is `Ok` exactly when `naga_wgsl_parse_error` names no error for
/// the source, and an error carries the offset of its first label and the
/// message named there.
#[verifier::external_body]
fn parse_wgsl(source: &str) -> (r: Result<(), WgslError>)
    ensures
        match naga_wgsl_parse_error(source@) {
            None => r is Ok,
            Some((offset, message)) => r matches Err(e) && e.offset == offset && e.message@ == message,
        },
{
    match naga::front::wgsl::parse_str(source) {
        Ok(_) => Ok(()),
        Err(e) => Err(WgslError {
            offset: e.labels().next().map(|(span, _)| span.location(source).offset as usize),
            message: e.to_string(),
        }),
    }
}

/// Validates the module that `naga::front::wgsl::parse_str` builds from
/// `source` with `naga::valid::Validator::validate`, every validation flag
/// and every capability enabled. Trusted: the result is `Ok` exactly when
/// `naga_wgsl_validation_error` names no error for the source, and an error
/// carries the offset of its first span and the message named there.
#[verifier::external_body]
fn validate_source(source: &str) -> (r: Result<(), WgslError>)
    requires
        naga_wgsl_parse_error(source@) is None,
    ensures
        match naga_wgsl_validation_error(source@) {
            None => r is Ok,
            Some((offset, message)) => r matches Err(e) && e.offset == offset && e.message@ == message,
        },
{
    let module = naga::front::wgsl::parse_str(source).expect("the source parses");
    let flags = naga::valid::ValidationFlags::all();
    let capabilities = naga::valid::Capabilities::all();
    match naga::valid::Validator::new(flags, capabilities).validate(&module) {
        Ok(_) => Ok(()),
        Err(e) => Err(WgslError {
            offset: e.spans().next().map(|(span, _)| span.location(source).offset as usize),
            message: e.to_string(),
        }),
    }
}

/// Whether an error at `offset` can be reported with spans starting at
/// `starts` (the spans' table must not be empty).
pub open spec fn reportable(offset: Option<usize>, starts: Seq<usize>) -> bool {
    offset is Some ==> starts.len() > 0
}

/// What the macro does about naga's verdict `error` on its source, or
/// `None` for an error at an offset when there are no spans to report it at.
pub open spec fn verdict_outcome(error: Option<(Option<usize>, Seq<char>)>, starts: Seq<usize>, r: Option<WgslOutcome>) -> bool {
    match error {
        None => r == Some(WgslOutcome::Valid),
        Some((offset, message)) => if reportable(offset, starts) {
            r matches Some(o) && outcome_of_error(offset, message, starts, o)
        } else {
            r is None
        },
    }
}

/// Checks the rendered WGSL source with naga: it is parsed, then validated.
/// `starts` are the byte offsets at which the spans of the rendered source
/// begin. Returns what the macro does, or `None` for an error at an offset
/// when there are no spans to report it at.
pub fn check_wgsl(source: &str, starts: &[usize]) -> (r: Option<WgslOutcome>)
    ensures
        match naga_wgsl_parse_error(source@) {
            Some(e) => verdict_outcome(Some(e), starts@, r),
            None => verdict_outcome(naga_wgsl_validation_error(source@), starts@, r),
        },
{
    let e = match parse_wgsl(source) {
        Ok(()) => match validate_source(source) {
            Ok(()) => {
                return Some(WgslOutcome::Valid);
            },
            Err(e) => e,
        },
        Err(e) => e,
    };
    if e.offset.is_some() && starts.len() == 0 {
        None
    } else {
        Some(wgsl_error_outcome(e, starts))
    }
}

/// What a WGSL macro finally expands to.
#[derive(Debug, PartialEq, Eq)]
pub enum MacroOutput {
    /// These tokens: the input handed to the paste macro of the snippet it
    /// references.
    Tokens { tokens: Vec<TokenTree> },
    /// What is done with the rendered source.
    Checked { outcome: WgslOutcome },
}

/// The outcome held by a `Checked` output, or none.
pub open spec fn checked_outcome(r: Option<MacroOutput>) -> Option<WgslOutcome> {
    match r {
        Some(MacroOutput::Checked { outcome }) => Some(outcome),
        _ => None,
    }
}

/// Whether `r` is what a macro does with its rendered `source`, whose spans
/// start at `starts`: naga's verdict on it, first parsing and then
/// validation; or, where validation is skipped, the source itself.
pub open spec fn rendered_output(source: Seq<char>, starts: Seq<usize>, skip_validation: bool, r: Option<MacroOutput>) -> bool {
    &&& (r is None || r matches Some(MacroOutput::Checked { .. }))
    &&& if skip_validation {
        r == Some(MacroOutput::Checked { outcome: WgslOutcome::Valid })
    } else {
        match naga_wgsl_parse_error(source) {
            Some(e) => verdict_outcome(Some(e), starts, checked_outcome(r)),
            None => verdict_outcome(naga_wgsl_validation_error(source), starts, checked_outcome(r)),
        }
    }
}

/// Finishes a WGSL macro. An expansion through a paste macro gives its
/// tokens. Otherwise `source` is the WGSL that the expansion's tokens render
/// to and `starts` the byte offsets at which the spans of the rendered
/// source begin: with the naga_oil feature on (`naga_oil`) and a source that
/// uses naga_oil preprocessing (`uses_naga_oil`), the macro expands to the
/// source unchecked; otherwise naga checks it as `check_wgsl` does. `None`
/// stands for an error at an offset with no span to report it at.
pub fn finish_wgsl(expansion: WgslExpansion, source: &str, starts: &[usize], naga_oil: bool, uses_naga_oil: bool) -> (r: Option<MacroOutput>)
    ensures
        match expansion {
            WgslExpansion::Paste { tokens } => r == Some(MacroOutput::Tokens { tokens }),
            WgslExpansion::Render { .. } => rendered_output(source@, starts@, naga_oil && uses_naga_oil, r),
        },
{
    match expansion {
        WgslExpansion::Paste { tokens } => Some(MacroOutput::Tokens { tokens }),
        WgslExpansion::Render { .. } => {
            if naga_oil && uses_naga_oil {
                Some(MacroOutput::Checked { outcome: WgslOutcome::Valid })
            } else {
                match check_wgsl(source, starts) {
                    Some(outcome) => Some(MacroOutput::Checked { outcome }),
                    None => None,
                }
            }
        },
    }
}

} // verus!
