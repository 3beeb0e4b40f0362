//! Finding the Rust types in a macro input (a type, a struct or a function)
//! with syn, and writing the converted WGSL types back into it.

use vstd::prelude::*;

use proc_macro2::{
    Group as PmGroup, Punct as PmPunct, Spacing as PmSpacing, TokenStream as PmStream, TokenTree as PmTree,
};
use quote::ToTokens;

use crate::conversions::{
    call_site_ident, call_site_punct, convert_rust_item, matrix_name, vector_name, vector_size_of,
    wgsl_input_of, wgsl_inputs_of, wgsl_type_of_segment, wgsl_output_of, wgsl_tokens, wgsl_type_of, wgsl_types_of, FnInput,
    ConversionError, GenericArg, PathSegment, RustItem, RustType, WgslItem, WgslType,
};
use crate::tokens::{lemma_trees_view, reversed, tree_view, trees_view, GroupDelimiter, Spacing, TokenSpan, TokenTree, Tree};

verus! {

/// Whether `c` is a punctuation character that a token stream can hold.
pub open spec fn valid_punct_char(c: char) -> bool {
    ||| c == '!' || c == '#' || c == '$' || c == '%' || c == '&' || c == '\'' || c == '*'
    ||| c == '+' || c == ',' || c == '-' || c == '.' || c == '/' || c == ':' || c == ';'
    ||| c == '<' || c == '=' || c == '>' || c == '?' || c == '@' || c == '^' || c == '|' || c == '~'
}

/// Whether every punctuation character in `s`, inside groups too, is one a
/// token stream can hold.
pub open spec fn puncts_valid(s: Seq<Tree>) -> bool
    decreases s, 1nat,
{
    if s.len() == 0 {
        true
    } else {
        tree_puncts_valid(s[0]) && puncts_valid(s.subrange(1, s.len() as int))
    }
}

/// `puncts_valid` of a single token.
pub open spec fn tree_puncts_valid(t: Tree) -> bool
    decreases t, 0nat,
{
    match t {
        Tree::Group(_, inner) => puncts_valid(inner),
        Tree::Punct(c, _, _) => valid_punct_char(c),
        _ => true,
    }
}

/// Whether the length tokens of every array in `t` pass `puncts_valid`.
pub open spec fn rust_type_puncts_valid(t: RustType) -> bool
    decreases t,
{
    match t {
        RustType::Array { elem, len } => puncts_valid(trees_view(len@)) && rust_type_puncts_valid(*elem),
        RustType::Path { last } => match last.first_generic {
            Some(GenericArg::Type(inner)) => rust_type_puncts_valid(*inner),
            _ => true,
        },
        RustType::Group { elem } => rust_type_puncts_valid(*elem),
        _ => true,
    }
}

/// Whether `c` is a punctuation character that a token stream can hold.
pub fn is_punct_char(c: char) -> (r: bool)
    ensures
        r == valid_punct_char(c),
{
    c == '!' || c == '#' || c == '$' || c == '%' || c == '&' || c == '\'' || c == '*' || c == '+' || c
        == ',' || c == '-' || c == '.' || c == '/' || c == ':' || c == ';' || c == '<' || c == '=' || c
        == '>' || c == '?' || c == '@' || c == '^' || c == '|' || c == '~'
}

/// Whether every punctuation character in `tokens`, inside groups too, is
/// one a token stream can hold.
pub fn puncts_are_valid(tokens: &Vec<TokenTree>) -> (r: bool)
    ensures
        r == puncts_valid(trees_view(tokens@)),
    decreases tokens@,
{
    let ghost v = trees_view(tokens@);
    proof {
        lemma_trees_view(tokens@);
        assert(v.subrange(0, v.len() as int) =~= v);
    }
    let n = tokens.len();
    let mut i: usize = 0;
    while i < n
        invariant
            n == tokens@.len(),
            v == trees_view(tokens@),
            v.len() == n,
            forall|k: int| 0 <= k < n ==> v[k] == #[trigger] tokens@[k]@,
            i <= n,
            puncts_valid(v) == puncts_valid(v.subrange(i as int, n as int)),
        decreases n - i,
    {
        let ghost rest = v.subrange(i as int, n as int);
        proof {
            assert(rest[0] == v[i as int]);
            assert(rest.subrange(1, rest.len() as int) =~= v.subrange(i + 1, n as int));
        }
        let ghost t = tokens@[i as int];
        proof {
            assert(v[i as int] == t@);
            assert(t@ == tree_view(t));
        }
        let ok = match &tokens[i] {
            TokenTree::Group { stream, .. } => {
                proof {
                    assert(decreases_to!(tokens@ => tokens@[i as int]));
                }
                let r = puncts_are_valid(stream);
                proof {
                    assert(t@ == tree_view(t));
                    assert(tree_puncts_valid(t@) == puncts_valid(trees_view(stream@)));
                }
                r
            },
            TokenTree::Punct { ch, .. } => is_punct_char(*ch),
            _ => true,
        };
        proof {
            assert(ok == tree_puncts_valid(v[i as int]));
            assert(puncts_valid(rest) == (tree_puncts_valid(rest[0]) && puncts_valid(
                rest.subrange(1, rest.len() as int),
            )));
        }
        if !ok {
            return false;
        }
        i = i + 1;
    }
    proof {
        assert(v.subrange(n as int, n as int) =~= Seq::<Tree>::empty());
    }
    true
}

/// `rust_type_puncts_valid` of every type in an item.
pub open spec fn rust_item_puncts_valid(item: RustItem) -> bool {
    match item {
        RustItem::Type(t) => rust_type_puncts_valid(t),
        RustItem::Struct { field_types } => forall|k: int|
            0 <= k < field_types@.len() ==> #[trigger] rust_type_puncts_valid(field_types@[k]),
        RustItem::Function { output, inputs } => {
            &&& (output matches Some(t) ==> rust_type_puncts_valid(t))
            &&& forall|k: int|
                0 <= k < inputs@.len() ==> (#[trigger] inputs@[k] matches FnInput::Typed(t)
                    ==> rust_type_puncts_valid(t))
        },
        RustItem::Unrecognized => true,
    }
}

proof fn lemma_puncts_valid_add(a: Seq<Tree>, b: Seq<Tree>)
    ensures
        puncts_valid(a + b) == (puncts_valid(a) && puncts_valid(b)),
    decreases a.len(),
{
    if a.len() > 0 {
        lemma_puncts_valid_add(a.subrange(1, a.len() as int), b);
        assert((a + b).subrange(1, (a + b).len() as int) =~= a.subrange(1, a.len() as int) + b);
        assert((a + b)[0] == a[0]);
    } else {
        assert(a + b =~= b);
    }
}

proof fn lemma_puncts_valid_single(t: Tree)
    ensures
        puncts_valid(seq![t]) == tree_puncts_valid(t),
{
    let rest = seq![t].subrange(1, 1);
    assert(rest =~= Seq::<Tree>::empty());
    assert(puncts_valid(rest));
    assert(seq![t][0] == t);
}

/// The tokens that spell a converted type hold only valid punctuation.
proof fn lemma_wgsl_tokens_puncts_valid(t: RustType)
    requires
        rust_type_puncts_valid(t),
        wgsl_type_of(t) is Ok,
    ensures
        puncts_valid(wgsl_tokens(wgsl_type_of(t)->Ok_0)),
    decreases t,
{
    let w = wgsl_type_of(t)->Ok_0;
    match t {
        RustType::Array { elem, len } => {
            lemma_wgsl_tokens_puncts_valid(*elem);
            let e = wgsl_type_of(*elem)->Ok_0;
            let a = seq![call_site_ident("array"@), call_site_punct('<')];
            let b = seq![call_site_punct(',')];
            let c = seq![call_site_punct('>')];
            lemma_puncts_valid_add(a, wgsl_tokens(e));
            lemma_puncts_valid_add(a + wgsl_tokens(e), b);
            lemma_puncts_valid_add(a + wgsl_tokens(e) + b, trees_view(len@));
            lemma_puncts_valid_add(a + wgsl_tokens(e) + b + trees_view(len@), c);
            lemma_puncts_valid_add(seq![call_site_ident("array"@)], seq![call_site_punct('<')]);
            assert(seq![call_site_ident("array"@)] + seq![call_site_punct('<')] =~= a);
            lemma_puncts_valid_single(call_site_ident("array"@));
            lemma_puncts_valid_single(call_site_punct('<'));
            lemma_puncts_valid_single(call_site_punct(','));
            lemma_puncts_valid_single(call_site_punct('>'));
            assert(wgsl_tokens(w) == a + wgsl_tokens(e) + b + trees_view(len@) + c);
        },
        RustType::Path { last } => {
            assert(w == wgsl_type_of_segment(last)->Ok_0);
            match w {
                WgslType::Vector { size, elem } => {
                    assert(vector_size_of(last.ident@) is Some);
                    match last.first_generic {
                        Some(GenericArg::Type(inner)) => {
                            lemma_wgsl_tokens_puncts_valid(*inner);
                            let e = wgsl_type_of(*inner)->Ok_0;
                            assert(*elem == e);
                            let a = seq![call_site_ident(vector_name(size)), call_site_punct('<')];
                            let c = seq![call_site_punct('>')];
                            lemma_puncts_valid_add(a, wgsl_tokens(e));
                            lemma_puncts_valid_add(a + wgsl_tokens(e), c);
                            lemma_puncts_valid_add(
                                seq![call_site_ident(vector_name(size))],
                                seq![call_site_punct('<')],
                            );
                            assert(seq![call_site_ident(vector_name(size))] + seq![call_site_punct('<')] =~= a);
                            lemma_puncts_valid_single(call_site_ident(vector_name(size)));
                            lemma_puncts_valid_single(call_site_punct('<'));
                            lemma_puncts_valid_single(call_site_punct('>'));
                        },
                        _ => {},
                    }
                },
                WgslType::F32 => lemma_puncts_valid_single(call_site_ident("f32"@)),
                WgslType::I32 => lemma_puncts_valid_single(call_site_ident("i32"@)),
                WgslType::U32 => lemma_puncts_valid_single(call_site_ident("u32"@)),
                WgslType::Bool => lemma_puncts_valid_single(call_site_ident("bool"@)),
                WgslType::Matrix { size } => lemma_puncts_valid_single(call_site_ident(matrix_name(size))),
                WgslType::Array { .. } => {},
            }
        },
        RustType::Group { elem } => {
            lemma_wgsl_tokens_puncts_valid(*elem);
            assert(puncts_valid(wgsl_tokens(w)));
        },
        _ => {},
    }
}

/// A proc_macro2 token stream.
#[verifier::external_type_specification]
#[verifier::external_body]
pub struct ExTokenStream(proc_macro2::TokenStream);

/// A proc_macro2 group delimiter.
#[verifier::external_type_specification]
#[verifier::external_body]
pub struct ExPmDelimiter(proc_macro2::Delimiter);

/// A syn type.
#[verifier::external_type_specification]
#[verifier::external_body]
pub struct ExSynType(syn::Type);

/// A syn path type.
#[verifier::external_type_specification]
#[verifier::external_body]
pub struct ExSynTypePath(syn::TypePath);

/// A syn function item.
#[verifier::external_type_specification]
#[verifier::external_body]
pub struct ExSynItemFn(syn::ItemFn);

/// Converts a delimiter to proc_macro2's (`proc_macro2::Delimiter`), one
/// variant for one.
#[verifier::external_body]
fn pm_delimiter(d: GroupDelimiter) -> proc_macro2::Delimiter {
    match d {
        GroupDelimiter::Parenthesis => proc_macro2::Delimiter::Parenthesis,
        GroupDelimiter::Brace => proc_macro2::Delimiter::Brace,
        GroupDelimiter::Bracket => proc_macro2::Delimiter::Bracket,
        GroupDelimiter::Invisible => proc_macro2::Delimiter::None,
    }
}

/// Converts a proc_macro2 delimiter (`proc_macro2::Delimiter`) to the
/// library's, one variant for one.
#[verifier::external_body]
fn lib_delimiter(d: proc_macro2::Delimiter) -> GroupDelimiter {
    match d {
        proc_macro2::Delimiter::Parenthesis => GroupDelimiter::Parenthesis,
        proc_macro2::Delimiter::Brace => GroupDelimiter::Brace,
        proc_macro2::Delimiter::Bracket => GroupDelimiter::Bracket,
        proc_macro2::Delimiter::None => GroupDelimiter::Invisible,
    }
}

/// Converts one token to proc_macro2 tokens at the call site: a group with
/// `proc_macro2::Group::new`, punctuation with `proc_macro2::Punct::new`
/// (which panics on a character that `requires` rules out), an identifier
/// or a literal by lexing its text with `PmStream`'s
/// `FromStr` (text that does not lex gives no token). Trusted; nothing is
/// stated of the result.
#[verifier::external_body]
fn pm_token(t: &TokenTree) -> PmStream
    requires
        tree_puncts_valid(t@),
{
    match t {
        TokenTree::Group { delimiter, stream } => PmStream::from(
            PmTree::Group(PmGroup::new(pm_delimiter(*delimiter), pm_stream(stream))),
        ),
        TokenTree::Punct { ch, spacing: Spacing::Alone, .. } => PmStream::from(PmTree::Punct(PmPunct::new(*ch, PmSpacing::Alone))),
        TokenTree::Punct { ch, spacing: Spacing::Joint, .. } => PmStream::from(PmTree::Punct(PmPunct::new(*ch, PmSpacing::Joint))),
        TokenTree::Ident { name: text, .. } | TokenTree::Literal { text, .. } => text.parse().unwrap_or_default(),
    }
}

/// Converts tokens to a `PmStream`, token by token with
/// `pm_token`. Trusted; nothing is stated of the result.
#[verifier::external_body]
fn pm_stream(tokens: &Vec<TokenTree>) -> PmStream
    requires
        puncts_valid(trees_view(tokens@)),
{
    let mut out = PmStream::new();
    for t in tokens {
        out.extend(pm_token(t));
    }
    out
}

/// Converts a `PmStream` to the library's tokens, all at the
/// call site: a group by its delimiter and tokens, an identifier and a
/// literal by their text (`to_string`), punctuation by `as_char` and
/// `spacing`. Trusted; nothing is stated of the result.
#[verifier::external_body]
fn tokens_of(stream: PmStream) -> Vec<TokenTree> {
    stream.into_iter().map(|tt| match tt {
        proc_macro2::TokenTree::Group(g) => TokenTree::Group { delimiter: lib_delimiter(g.delimiter()), stream: tokens_of(g.stream()) },
        proc_macro2::TokenTree::Ident(i) => TokenTree::Ident { name: i.to_string(), span: TokenSpan::CallSite },
        proc_macro2::TokenTree::Punct(p) => TokenTree::Punct {
            ch: p.as_char(),
            spacing: match p.spacing() {
                proc_macro2::Spacing::Alone => Spacing::Alone,
                proc_macro2::Spacing::Joint => Spacing::Joint,
            },
            span: TokenSpan::CallSite,
        },
        proc_macro2::TokenTree::Literal(l) => TokenTree::Literal { text: l.to_string(), span: TokenSpan::CallSite },
    }).collect()
}

/// What the type conversion reads of a `syn::Type`: the kind of type, an
/// array's element type and length tokens (`to_token_stream`), a path's last
/// segment, a group's element. Trusted; nothing is stated of the result.
#[verifier::external_body]
fn rust_type_of(ty: &syn::Type) -> RustType {
    match ty {
        syn::Type::Array(a) => RustType::Array {
            elem: Box::new(rust_type_of(&a.elem)),
            len: tokens_of(a.len.to_token_stream()),
        },
        syn::Type::Slice(_) => RustType::Slice,
        syn::Type::Path(p) => RustType::Path { last: last_segment_of(p) },
        syn::Type::Group(g) => RustType::Group { elem: Box::new(rust_type_of(&g.elem)) },
        syn::Type::Tuple(_) => RustType::Tuple,
        _ => RustType::Other,
    }
}

/// What the type conversion reads of the last segment of a `syn::TypePath`:
/// its identifier (`to_string`) and its first angle-bracketed generic
/// argument. Trusted; nothing is stated of the result.
#[verifier::external_body]
fn last_segment_of(p: &syn::TypePath) -> PathSegment {
    let seg = p.path.segments.last().expect("Type path should have at least one segment");
    let first_generic = match &seg.arguments {
        syn::PathArguments::AngleBracketed(args) => args.args.first().map(|arg| match arg {
            syn::GenericArgument::Type(t) => GenericArg::Type(Box::new(rust_type_of(t))),
            _ => GenericArg::NotAType,
        }),
        _ => None,
    };
    PathSegment { ident: seg.ident.to_string(), first_generic }
}

/// The return type and parameter types of a `syn::ItemFn`. Trusted; nothing
/// is stated of the result.
#[verifier::external_body]
fn fn_parts_of(f: &syn::ItemFn) -> (Option<RustType>, Vec<FnInput>) {
    let output = match &f.sig.output {
        syn::ReturnType::Type(_, ty) => Some(rust_type_of(ty)),
        syn::ReturnType::Default => None,
    };
    let inputs = f.sig.inputs.iter().map(|arg| match arg {
        syn::FnArg::Typed(p) => FnInput::Typed(rust_type_of(&p.ty)),
        syn::FnArg::Receiver(_) => FnInput::Receiver,
    }).collect();
    (output, inputs)
}

/// What the type conversion reads of the `syn::Type` that `syn::parse2`
/// makes of the tokens, or none where they do not form a type.
pub uninterp spec fn syn_type(tokens: Seq<Tree>) -> Option<RustType>;

/// The types of the fields, in order, of the `syn::ItemStruct` that
/// `syn::parse2` makes of the tokens, or none where they do not form a struct.
pub uninterp spec fn syn_struct_field_types(tokens: Seq<Tree>) -> Option<Seq<RustType>>;

/// The written return type and the parameters, in order, of the
/// `syn::ItemFn` that `syn::parse2` makes of the tokens, or none where they
/// do not form a function.
pub uninterp spec fn syn_fn_types(tokens: Seq<Tree>) -> Option<(Option<RustType>, Seq<FnInput>)>;

/// Parses the tokens as a type with `syn::parse2::<syn::Type>`. Trusted:
/// the result is `syn_type` of the tokens, and the length tokens it holds
/// were made by proc_macro2, so their punctuation is valid.
#[verifier::external_body]
fn parse_as_type(tokens: &Vec<TokenTree>) -> (r: Option<RustType>)
    requires
        puncts_valid(trees_view(tokens@)),
    ensures
        r == syn_type(trees_view(tokens@)),
        r matches Some(t) ==> rust_type_puncts_valid(t),
{
    syn::parse2::<syn::Type>(pm_stream(tokens)).ok().map(|ty| rust_type_of(&ty))
}

/// Parses the tokens as a struct with `syn::parse2::<syn::ItemStruct>`.
/// Trusted: the result is `syn_struct_field_types` of the tokens, and the
/// length tokens it holds were made by proc_macro2, so their punctuation is
/// valid.
#[verifier::external_body]
fn parse_as_struct(tokens: &Vec<TokenTree>) -> (r: Option<Vec<RustType>>)
    requires
        puncts_valid(trees_view(tokens@)),
    ensures
        match r {
            Some(v) => syn_struct_field_types(trees_view(tokens@)) == Some(v@),
            None => syn_struct_field_types(trees_view(tokens@)) is None,
        },
        r matches Some(v) ==> forall|k: int| 0 <= k < v@.len() ==> #[trigger] rust_type_puncts_valid(v@[k]),
{
    syn::parse2::<syn::ItemStruct>(pm_stream(tokens)).ok().map(|s| s.fields.iter().map(|f| rust_type_of(&f.ty)).collect())
}

/// Parses the tokens as a function with `syn::parse2::<syn::ItemFn>`.
/// Trusted: the result is `syn_fn_types` of the tokens, and the length
/// tokens it holds were made by proc_macro2, so their punctuation is valid.
#[verifier::external_body]
fn parse_as_fn(tokens: &Vec<TokenTree>) -> (r: Option<(Option<RustType>, Vec<FnInput>)>)
    requires
        puncts_valid(trees_view(tokens@)),
    ensures
        match r {
            Some((o, ins)) => syn_fn_types(trees_view(tokens@)) == Some((o, ins@)),
            None => syn_fn_types(trees_view(tokens@)) is None,
        },
        r matches Some((o, ins)) ==> rust_item_puncts_valid(RustItem::Function { output: o, inputs: ins }),
{
    syn::parse2::<syn::ItemFn>(pm_stream(tokens)).ok().map(|f| fn_parts_of(&f))
}

/// Whether `r` is what the macro input `tokens` is read as: a type where
/// syn reads one; else a struct, by its field types, where syn reads one;
/// else a function, by its return and parameter types, where syn reads one;
/// else nothing.
pub open spec fn parsed_item(tokens: Seq<Tree>, r: RustItem) -> bool {
    match syn_type(tokens) {
        Some(t) => r == RustItem::Type(t),
        None => match syn_struct_field_types(tokens) {
            Some(fts) => r matches RustItem::Struct { field_types } && field_types@ == fts,
            None => match syn_fn_types(tokens) {
                Some((o, ins)) => r matches RustItem::Function { output, inputs } && output == o && inputs@
                    == ins,
                None => r is Unrecognized,
            },
        },
    }
}

/// Reads the macro input as a type, else as a struct, else as a function,
/// else as nothing.
pub fn parse_rust_item(tokens: &Vec<TokenTree>) -> (r: RustItem)
    requires
        puncts_valid(trees_view(tokens@)),
    ensures
        parsed_item(trees_view(tokens@), r),
        rust_item_puncts_valid(r),
{
    if let Some(t) = parse_as_type(tokens) {
        return RustItem::Type(t);
    }
    if let Some(field_types) = parse_as_struct(tokens) {
        return RustItem::Struct { field_types };
    }
    match parse_as_fn(tokens) {
        Some((output, inputs)) => RustItem::Function { output, inputs },
        None => RustItem::Unrecognized,
    }
}

/// What a type is replaced by: the tokens `new` where syn reads them as a
/// type; otherwise nothing, and the type is kept.
pub open spec fn replacement(new: Seq<Tree>) -> Option<Seq<Tree>> {
    if syn_type(new) is Some {
        Some(new)
    } else {
        None
    }
}

/// `new` where syn reads it as a type, otherwise nothing.
fn replacement_for(new: Vec<TokenTree>) -> (r: Option<Vec<TokenTree>>)
    requires
        puncts_valid(trees_view(new@)),
    ensures
        match replacement(trees_view(new@)) {
            Some(t) => r matches Some(v) && trees_view(v@) == t,
            None => r is None,
        },
{
    if parse_as_type(&new).is_some() {
        Some(new)
    } else {
        None
    }
}

/// The values of a list of optional token sequences.
pub open spec fn optional_token_lists_view(v: Seq<Option<Vec<TokenTree>>>) -> Seq<Option<Seq<Tree>>> {
    Seq::new(
        v.len(),
        |k: int|
            match v[k] {
                Some(t) => Some(trees_view(t@)),
                None => None,
            },
    )
}

/// The tokens of the struct `tokens` once the type of each field is replaced
/// by the one spelled by the corresponding entry of `types`, where there is
/// one.
pub uninterp spec fn syn_struct_with_field_types(tokens: Seq<Tree>, types: Seq<Option<Seq<Tree>>>) -> Seq<Tree>;

/// Replaces the field types of a struct: parses the tokens as a
/// `syn::ItemStruct`, sets the type of each field that has an entry in
/// `types` to `syn::parse2` of it, and emits the struct with
/// `to_token_stream`. Trusted: the result is `syn_struct_with_field_types`
/// of the arguments.
#[verifier::external_body]
fn emit_struct(tokens: &Vec<TokenTree>, types: &Vec<Option<Vec<TokenTree>>>) -> (r: Vec<TokenTree>)
    requires
        syn_struct_field_types(trees_view(tokens@)) is Some,
        puncts_valid(trees_view(tokens@)),
        forall|k: int|
            0 <= k < types@.len() ==> (#[trigger] types@[k] matches Some(t) ==> puncts_valid(trees_view(t@))
                && syn_type(trees_view(t@)) is Some),
    ensures
        trees_view(r@) == syn_struct_with_field_types(trees_view(tokens@), optional_token_lists_view(types@)),
{
    let mut item: syn::ItemStruct = syn::parse2(pm_stream(tokens)).expect("the tokens form a struct");
    for (field, new) in item.fields.iter_mut().zip(types.iter()) {
        if let Some(new) = new {
            field.ty = syn::parse2(pm_stream(new)).expect("the replacement is a type");
        }
    }
    tokens_of(item.to_token_stream())
}

/// The tokens of the function `tokens` once its written return type is
/// replaced by the one spelled by `output`, where given, and the type of each
/// typed parameter by the one spelled by the corresponding entry of
/// `inputs`, where there is one.
pub uninterp spec fn syn_fn_with_types(tokens: Seq<Tree>, output: Option<Seq<Tree>>, inputs: Seq<Option<Seq<Tree>>>) -> Seq<Tree>;

/// Replaces the return and parameter types of a function: parses the tokens
/// as a `syn::ItemFn`, sets each type that has a replacement to
/// `syn::parse2` of it, and emits the function with `to_token_stream`.
/// Trusted: the result is `syn_fn_with_types` of the arguments.
#[verifier::external_body]
fn emit_fn(tokens: &Vec<TokenTree>, output: &Option<Vec<TokenTree>>, inputs: &Vec<Option<Vec<TokenTree>>>) -> (r: Vec<TokenTree>)
    requires
        syn_fn_types(trees_view(tokens@)) is Some,
        puncts_valid(trees_view(tokens@)),
        output matches Some(o) ==> puncts_valid(trees_view(o@)) && syn_type(trees_view(o@)) is Some,
        forall|k: int|
            0 <= k < inputs@.len() ==> (#[trigger] inputs@[k] matches Some(t) ==> puncts_valid(trees_view(t@))
                && syn_type(trees_view(t@)) is Some),
    ensures
        trees_view(r@) == syn_fn_with_types(
            trees_view(tokens@),
            match output { Some(o) => Some(trees_view(o@)), None => None },
            optional_token_lists_view(inputs@),
        ),
{
    let mut f: syn::ItemFn = syn::parse2(pm_stream(tokens)).expect("the tokens form a function");
    if let (syn::ReturnType::Type(_, ty), Some(new)) = (&mut f.sig.output, output) {
        **ty = syn::parse2(pm_stream(new)).expect("the replacement is a type");
    }
    for (arg, new) in f.sig.inputs.iter_mut().zip(inputs.iter()) {
        if let (syn::FnArg::Typed(p), Some(new)) = (arg, new) {
            *p.ty = syn::parse2(pm_stream(new)).expect("the replacement is a type");
        }
    }
    tokens_of(f.to_token_stream())
}

/// The replacements for the types of a struct's fields, converted to `ws`.
pub open spec fn replacement_list(ws: Seq<WgslType>) -> Seq<Option<Seq<Tree>>> {
    Seq::new(ws.len(), |k: int| replacement(wgsl_tokens(ws[k])))
}

/// The replacement for a type converted to `o`, where there is a type.
pub open spec fn optional_replacement(o: Option<WgslType>) -> Option<Seq<Tree>> {
    match o {
        Some(w) => replacement(wgsl_tokens(w)),
        None => None,
    }
}

/// The replacements for the parameter types of a function, converted to
/// `ws` (`None` for a receiver).
pub open spec fn optional_replacement_list(ws: Seq<Option<WgslType>>) -> Seq<Option<Seq<Tree>>> {
    Seq::new(ws.len(), |k: int| optional_replacement(ws[k]))
}

proof fn lemma_types_pointwise(s: Seq<RustType>)
    ensures
        wgsl_types_of(s) matches Ok(ws) ==> ws.len() == s.len() && forall|k: int|
            0 <= k < s.len() ==> wgsl_type_of(#[trigger] s[k]) == Ok::<WgslType, ConversionError>(ws[k]),
    decreases s.len(),
{
    if s.len() > 0 {
        let rest = s.subrange(1, s.len() as int);
        lemma_types_pointwise(rest);
        if let Ok(ws) = wgsl_types_of(s) {
            let rs = wgsl_types_of(rest)->Ok_0;
            assert forall|k: int| 0 <= k < s.len() implies wgsl_type_of(#[trigger] s[k]) == Ok::<
                WgslType,
                ConversionError,
            >(ws[k]) by {
                if k > 0 {
                    assert(s[k] == rest[k - 1]);
                    assert(ws[k] == rs[k - 1]);
                }
            }
        }
    }
}

proof fn lemma_inputs_pointwise(s: Seq<FnInput>)
    ensures
        wgsl_inputs_of(s) matches Ok(ws) ==> ws.len() == s.len() && forall|k: int|
            0 <= k < s.len() ==> wgsl_input_of(#[trigger] s[k]) == Ok::<Option<WgslType>, ConversionError>(ws[k]),
    decreases s.len(),
{
    if s.len() > 0 {
        let rest = s.subrange(1, s.len() as int);
        lemma_inputs_pointwise(rest);
        if let Ok(ws) = wgsl_inputs_of(s) {
            let rs = wgsl_inputs_of(rest)->Ok_0;
            assert forall|k: int| 0 <= k < s.len() implies wgsl_input_of(#[trigger] s[k]) == Ok::<
                Option<WgslType>,
                ConversionError,
            >(ws[k]) by {
                if k > 0 {
                    assert(s[k] == rest[k - 1]);
                    assert(ws[k] == rs[k - 1]);
                }
            }
        }
    }
}

/// The replacement for a type converted to `o`, where there is a type.
fn optional_replacement_for(o: Option<WgslType>) -> (r: Option<Vec<TokenTree>>)
    requires
        o matches Some(w) ==> puncts_valid(wgsl_tokens(w)),
    ensures
        match optional_replacement(o) {
            Some(t) => r matches Some(v) && trees_view(v@) == t,
            None => r is None,
        },
{
    match o {
        Some(w) => replacement_for(w.into_tokens()),
        None => None,
    }
}

/// The replacements for the types of a struct's fields, converted to
/// `types`, in order.
fn field_replacements(types: Vec<WgslType>) -> (r: Vec<Option<Vec<TokenTree>>>)
    requires
        forall|k: int| 0 <= k < types@.len() ==> puncts_valid(wgsl_tokens(#[trigger] types@[k])),
    ensures
        optional_token_lists_view(r@) == replacement_list(types@),
{
    let ghost orig = types@;
    let mut pending = reversed(types);
    let mut out: Vec<Option<Vec<TokenTree>>> = Vec::new();
    while pending.len() > 0
        invariant
            out@.len() + pending@.len() == orig.len(),
            pending@ == orig.subrange(out@.len() as int, orig.len() as int).reverse(),
            forall|k: int| 0 <= k < orig.len() ==> puncts_valid(wgsl_tokens(#[trigger] orig[k])),
            forall|k: int|
                0 <= k < out@.len() ==> (match replacement(wgsl_tokens(orig[k])) {
                    Some(t) => #[trigger] out@[k] matches Some(v) && trees_view(v@) == t,
                    None => out@[k] is None,
                }),
        decreases pending.len(),
    {
        let ghost i = out@.len() as int;
        let ghost p = pending@;
        proof {
            assert(p.reverse() =~= orig.subrange(i, orig.len() as int));
            assert(p.last() == p.reverse()[0]);
        }
        let w = pending.pop().unwrap();
        proof {
            assert(w == orig[i]);
            assert(pending@ =~= orig.subrange(i + 1, orig.len() as int).reverse());
        }
        out.push(replacement_for(w.into_tokens()));
    }
    proof {
        assert(optional_token_lists_view(out@) =~= replacement_list(orig));
    }
    out
}

/// The replacements for the parameter types of a function, converted to
/// `inputs`, in order; a receiver has none.
fn input_replacements(inputs: Vec<Option<WgslType>>) -> (r: Vec<Option<Vec<TokenTree>>>)
    requires
        forall|k: int| 0 <= k < inputs@.len() ==> (#[trigger] inputs@[k] matches Some(w) ==> puncts_valid(wgsl_tokens(w))),
    ensures
        optional_token_lists_view(r@) == optional_replacement_list(inputs@),
{
    let ghost orig = inputs@;
    let mut pending = reversed(inputs);
    let mut out: Vec<Option<Vec<TokenTree>>> = Vec::new();
    while pending.len() > 0
        invariant
            out@.len() + pending@.len() == orig.len(),
            pending@ == orig.subrange(out@.len() as int, orig.len() as int).reverse(),
            forall|k: int| 0 <= k < orig.len() ==> (#[trigger] orig[k] matches Some(w) ==> puncts_valid(wgsl_tokens(w))),
            forall|k: int|
                0 <= k < out@.len() ==> (match optional_replacement(orig[k]) {
                    Some(t) => #[trigger] out@[k] matches Some(v) && trees_view(v@) == t,
                    None => out@[k] is None,
                }),
        decreases pending.len(),
    {
        let ghost i = out@.len() as int;
        let ghost p = pending@;
        proof {
            assert(p.reverse() =~= orig.subrange(i, orig.len() as int));
            assert(p.last() == p.reverse()[0]);
        }
        let w = pending.pop().unwrap();
        proof {
            assert(w == orig[i]);
            assert(pending@ =~= orig.subrange(i + 1, orig.len() as int).reverse());
        }
        out.push(optional_replacement_for(w));
    }
    proof {
        assert(optional_token_lists_view(out@) =~= optional_replacement_list(orig));
    }
    out
}

/// What converting every Rust type in the macro input `tokens` gives, as
/// `r`. The input is read as a type where syn reads one, else as a struct,
/// else as a function, else as nothing. A type gives the spelling of its
/// WGSL type; a struct or function is written back with each type replaced
/// by the spelling of its WGSL type, where syn reads that as a type (the
/// type is kept otherwise); the input comes back unchanged where it is read
/// as nothing. The first type (in order) without a WGSL counterpart is the
/// error.
pub open spec fn converted_item(tokens: Seq<Tree>, r: Result<Vec<TokenTree>, ConversionError>) -> bool {
    match syn_type(tokens) {
        Some(t) => match wgsl_type_of(t) {
            Ok(w) => r matches Ok(v) && trees_view(v@) == wgsl_tokens(w),
            Err(e) => r == Err::<Vec<TokenTree>, ConversionError>(e),
        },
        None => match syn_struct_field_types(tokens) {
            Some(fts) => match wgsl_types_of(fts) {
                Ok(ws) => r matches Ok(v) && trees_view(v@) == syn_struct_with_field_types(
                    tokens,
                    replacement_list(ws),
                ),
                Err(e) => r == Err::<Vec<TokenTree>, ConversionError>(e),
            },
            None => match syn_fn_types(tokens) {
                Some((output, inputs)) => match wgsl_output_of(output) {
                    Err(e) => r == Err::<Vec<TokenTree>, ConversionError>(e),
                    Ok(o) => match wgsl_inputs_of(inputs) {
                        Err(e) => r == Err::<Vec<TokenTree>, ConversionError>(e),
                        Ok(ins) => r matches Ok(v) && trees_view(v@) == syn_fn_with_types(
                            tokens,
                            optional_replacement(o),
                            optional_replacement_list(ins),
                        ),
                    },
                },
                None => r matches Ok(v) && trees_view(v@) == tokens,
            },
        },
    }
}

/// Converts every Rust type in the macro input to its WGSL type: the input
/// as a type, else the field types of a struct, else the return and
/// parameter types of a function. Anything else is returned unchanged; a
/// type without a WGSL counterpart is an error.
pub fn convert_all_rust_types_in_stream_to_wgsl_types(input: Vec<TokenTree>) -> (r: Result<Vec<TokenTree>, ConversionError>)
    requires
        puncts_valid(trees_view(input@)),
    ensures
        converted_item(trees_view(input@), r),
{
    let item = parse_rust_item(&input);
    let ghost parsed = item;
    proof {
        match parsed {
            RustItem::Struct { field_types } => lemma_types_pointwise(field_types@),
            RustItem::Function { inputs, .. } => lemma_inputs_pointwise(inputs@),
            _ => {},
        }
    }
    match convert_rust_item(item) {
        Err(e) => Err(e),
        Ok(WgslItem::Unchanged) => Ok(input),
        Ok(WgslItem::Type(w)) => Ok(w.into_tokens()),
        Ok(WgslItem::Struct { field_types }) => {
            let ghost ws = field_types@;
            proof {
                assert(parsed is Struct);
                let fts = parsed->field_types@;
                assert(wgsl_types_of(fts) == Ok::<Seq<WgslType>, ConversionError>(ws));
                assert forall|k: int| 0 <= k < ws.len() implies puncts_valid(wgsl_tokens(#[trigger] ws[k])) by {
                    assert(rust_type_puncts_valid(fts[k]));
                    lemma_wgsl_tokens_puncts_valid(fts[k]);
                }
            }
            let types = field_replacements(field_types);
            proof {
                assert(optional_token_lists_view(types@).len() == replacement_list(ws).len());
                assert(types@.len() == ws.len());
                assert forall|k: int| 0 <= k < types@.len() implies (#[trigger] types@[k] matches Some(t)
                    ==> puncts_valid(trees_view(t@)) && syn_type(trees_view(t@)) is Some) by {
                    assert(optional_token_lists_view(types@)[k] == replacement_list(ws)[k]);
                    assert(puncts_valid(wgsl_tokens(ws[k])));
                }
            }
            Ok(emit_struct(&input, &types))
        },
        Ok(WgslItem::Function { output, inputs }) => {
            let ghost o = output;
            let ghost ins = inputs@;
            proof {
                assert(parsed is Function);
                let pis = parsed->inputs@;
                assert(wgsl_inputs_of(pis) == Ok::<Seq<Option<WgslType>>, ConversionError>(ins));
                if let Some(t) = parsed->output {
                    lemma_wgsl_tokens_puncts_valid(t);
                }
                assert forall|k: int| 0 <= k < ins.len() implies (#[trigger] ins[k] matches Some(w) ==> puncts_valid(
                    wgsl_tokens(w),
                )) by {
                    if let FnInput::Typed(t) = pis[k] {
                        assert(rust_type_puncts_valid(t));
                        lemma_wgsl_tokens_puncts_valid(t);
                    }
                }
            }
            let out_tokens = optional_replacement_for(output);
            let in_tokens = input_replacements(inputs);
            proof {
                assert(optional_token_lists_view(in_tokens@).len() == optional_replacement_list(ins).len());
                assert(in_tokens@.len() == ins.len());
                assert forall|k: int| 0 <= k < in_tokens@.len() implies (#[trigger] in_tokens@[k] matches Some(t)
                    ==> puncts_valid(trees_view(t@)) && syn_type(trees_view(t@)) is Some) by {
                    assert(optional_token_lists_view(in_tokens@)[k] == optional_replacement_list(ins)[k]);
                    assert(ins[k] matches Some(w) ==> puncts_valid(wgsl_tokens(w)));
                }
            }
            Ok(emit_fn(&input, &out_tokens, &in_tokens))
        },
    }
}

proof fn lemma_types_from_pointwise(fts: Seq<RustType>, ws: Seq<WgslType>)
    requires
        ws.len() == fts.len(),
        forall|k: int| 0 <= k < fts.len() ==> wgsl_type_of(#[trigger] fts[k]) == Ok::<WgslType, ConversionError>(ws[k]),
    ensures
        wgsl_types_of(fts) == Ok::<Seq<WgslType>, ConversionError>(ws),
    decreases fts.len(),
{
    if fts.len() > 0 {
        let fr = fts.subrange(1, fts.len() as int);
        let wr = ws.subrange(1, ws.len() as int);
        assert forall|k: int| 0 <= k < fr.len() implies wgsl_type_of(#[trigger] fr[k]) == Ok::<WgslType, ConversionError>(
            wr[k],
        ) by {
            assert(fr[k] == fts[k + 1]);
            assert(wr[k] == ws[k + 1]);
        }
        lemma_types_from_pointwise(fr, wr);
        assert(wgsl_type_of(fts[0]) == Ok::<WgslType, ConversionError>(ws[0]));
        assert(seq![ws[0]] + wr =~= ws);
    } else {
        assert(ws =~= Seq::<WgslType>::empty());
    }
}

proof fn lemma_inputs_from_pointwise(ins: Seq<FnInput>, ws: Seq<Option<WgslType>>)
    requires
        ws.len() == ins.len(),
        forall|k: int| 0 <= k < ins.len() ==> wgsl_input_of(#[trigger] ins[k]) == Ok::<Option<WgslType>, ConversionError>(ws[k]),
    ensures
        wgsl_inputs_of(ins) == Ok::<Seq<Option<WgslType>>, ConversionError>(ws),
    decreases ins.len(),
{
    if ins.len() > 0 {
        let ir = ins.subrange(1, ins.len() as int);
        let wr = ws.subrange(1, ws.len() as int);
        assert forall|k: int| 0 <= k < ir.len() implies wgsl_input_of(#[trigger] ir[k]) == Ok::<
            Option<WgslType>,
            ConversionError,
        >(wr[k]) by {
            assert(ir[k] == ins[k + 1]);
            assert(wr[k] == ws[k + 1]);
        }
        lemma_inputs_from_pointwise(ir, wr);
        assert(wgsl_input_of(ins[0]) == Ok::<Option<WgslType>, ConversionError>(ws[0]));
        assert(seq![ws[0]] + wr =~= ws);
    } else {
        assert(ws =~= Seq::<Option<WgslType>>::empty());
    }
}

/// Every field of a struct is converted: where the type of field `k`
/// converts to `ws[k]`, for every `k`, the struct is written back with the
/// type of field `k` replaced by the spelling of `ws[k]`, wherever syn reads
/// that spelling as a type.
pub proof fn law_every_struct_field_is_replaced(
    tokens: Seq<Tree>,
    fts: Seq<RustType>,
    ws: Seq<WgslType>,
    types: Seq<Option<Seq<Tree>>>,
    r: Result<Vec<TokenTree>, ConversionError>,
)
    requires
        syn_type(tokens) is None,
        syn_struct_field_types(tokens) == Some(fts),
        ws.len() == fts.len(),
        forall|k: int| 0 <= k < fts.len() ==> wgsl_type_of(#[trigger] fts[k]) == Ok::<WgslType, ConversionError>(ws[k]),
        types.len() == fts.len(),
        forall|k: int|
            0 <= k < types.len() ==> #[trigger] types[k] == (if syn_type(wgsl_tokens(ws[k])) is Some {
                Some(wgsl_tokens(ws[k]))
            } else {
                None
            }),
        converted_item(tokens, r),
    ensures
        r matches Ok(v) && trees_view(v@) == syn_struct_with_field_types(tokens, types),
{
    lemma_types_from_pointwise(fts, ws);
    assert(types =~= replacement_list(ws));
}

/// Every type of a function is converted: its written return type, which
/// converts to `out_w`, is replaced by the spelling of `out_w`, and the type
/// of each typed parameter `k`, which converts to `ws[k]`, by the spelling of
/// `ws[k]` (a receiver is kept), wherever syn reads the spelling as a type.
pub proof fn law_every_function_type_is_replaced(
    tokens: Seq<Tree>,
    output: Option<RustType>,
    ins: Seq<FnInput>,
    out_w: Option<WgslType>,
    ws: Seq<Option<WgslType>>,
    types: Seq<Option<Seq<Tree>>>,
    r: Result<Vec<TokenTree>, ConversionError>,
)
    requires
        syn_type(tokens) is None,
        syn_struct_field_types(tokens) is None,
        syn_fn_types(tokens) == Some((output, ins)),
        output is None <==> out_w is None,
        output matches Some(t) ==> wgsl_type_of(t) == Ok::<WgslType, ConversionError>(out_w->0),
        ws.len() == ins.len(),
        forall|k: int|
            0 <= k < ins.len() ==> match #[trigger] ins[k] {
                FnInput::Receiver => ws[k] is None,
                FnInput::Typed(t) => ws[k] is Some && wgsl_type_of(t) == Ok::<WgslType, ConversionError>(ws[k]->0),
            },
        types.len() == ins.len(),
        forall|k: int|
            0 <= k < types.len() ==> #[trigger] types[k] == (match ws[k] {
                Some(w) => if syn_type(wgsl_tokens(w)) is Some {
                    Some(wgsl_tokens(w))
                } else {
                    None
                },
                None => None,
            }),
        converted_item(tokens, r),
    ensures
        r matches Ok(v) && trees_view(v@) == syn_fn_with_types(
            tokens,
            match out_w {
                Some(w) => if syn_type(wgsl_tokens(w)) is Some {
                    Some(wgsl_tokens(w))
                } else {
                    None
                },
                None => None,
            },
            types,
        ),
{
    assert forall|k: int| 0 <= k < ins.len() implies wgsl_input_of(#[trigger] ins[k]) == Ok::<
        Option<WgslType>,
        ConversionError,
    >(ws[k]) by {
        match ins[k] {
            FnInput::Receiver => {},
            FnInput::Typed(t) => {},
        }
    }
    lemma_inputs_from_pointwise(ins, ws);
    assert(wgsl_output_of(output) == Ok::<Option<WgslType>, ConversionError>(out_w));
    assert(types =~= optional_replacement_list(ws));
}

/// A single type is replaced by the spelling of the WGSL type it converts
/// to.
pub proof fn law_a_type_becomes_its_spelling(tokens: Seq<Tree>, t: RustType, w: WgslType, r: Result<Vec<TokenTree>, ConversionError>)
    requires
        syn_type(tokens) == Some(t),
        wgsl_type_of(t) == Ok::<WgslType, ConversionError>(w),
        converted_item(tokens, r),
    ensures
        r matches Ok(v) && trees_view(v@) == wgsl_tokens(w),
{
}

/// Input that syn reads as no type, struct or function comes back
/// unchanged.
pub proof fn law_unrecognized_input_is_unchanged(tokens: Seq<Tree>, r: Result<Vec<TokenTree>, ConversionError>)
    requires
        syn_type(tokens) is None,
        syn_struct_field_types(tokens) is None,
        syn_fn_types(tokens) is None,
        converted_item(tokens, r),
    ensures
        r matches Ok(v) && trees_view(v@) == tokens,
{
}

proof fn lemma_first_failing_type(fts: Seq<RustType>, j: int, e: ConversionError)
    requires
        0 <= j < fts.len(),
        forall|k: int| 0 <= k < j ==> #[trigger] wgsl_type_of(fts[k]) is Ok,
        wgsl_type_of(fts[j]) == Err::<WgslType, ConversionError>(e),
    ensures
        wgsl_types_of(fts) == Err::<Seq<WgslType>, ConversionError>(e),
    decreases j,
{
    if j > 0 {
        let fr = fts.subrange(1, fts.len() as int);
        assert forall|k: int| 0 <= k < j - 1 implies #[trigger] wgsl_type_of(fr[k]) is Ok by {
            assert(fr[k] == fts[k + 1]);
        }
        assert(fr[j - 1] == fts[j]);
        lemma_first_failing_type(fr, j - 1, e);
        assert(wgsl_type_of(fts[0]) is Ok);
    }
}

/// A struct with a field whose type has no WGSL counterpart is an error:
/// the error of the first such field, in order.
pub proof fn law_first_failing_field_is_the_error(
    tokens: Seq<Tree>,
    fts: Seq<RustType>,
    j: int,
    e: ConversionError,
    r: Result<Vec<TokenTree>, ConversionError>,
)
    requires
        syn_type(tokens) is None,
        syn_struct_field_types(tokens) == Some(fts),
        0 <= j < fts.len(),
        forall|k: int| 0 <= k < j ==> #[trigger] wgsl_type_of(fts[k]) is Ok,
        wgsl_type_of(fts[j]) == Err::<WgslType, ConversionError>(e),
        converted_item(tokens, r),
    ensures
        r == Err::<Vec<TokenTree>, ConversionError>(e),
{
    lemma_first_failing_type(fts, j, e);
}

/// A function whose written return type has no WGSL counterpart is an error,
/// whatever its parameters: the return type is converted first.
pub proof fn law_failing_return_type_is_the_error(
    tokens: Seq<Tree>,
    t: RustType,
    ins: Seq<FnInput>,
    e: ConversionError,
    r: Result<Vec<TokenTree>, ConversionError>,
)
    requires
        syn_type(tokens) is None,
        syn_struct_field_types(tokens) is None,
        syn_fn_types(tokens) == Some((Some(t), ins)),
        wgsl_type_of(t) == Err::<WgslType, ConversionError>(e),
        converted_item(tokens, r),
    ensures
        r == Err::<Vec<TokenTree>, ConversionError>(e),
{
}

} // verus!
