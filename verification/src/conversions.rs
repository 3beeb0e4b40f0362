//! Conversion of Rust types, as written in a shader function or struct, to
//! the WGSL types they stand for.

use vstd::prelude::*;

use crate::tokens::{lemma_trees_view_add, lemma_trees_view_push, reversed, str_eq, trees_view, Spacing, TokenSpan, TokenTree, Tree};

verus! {

/// A Rust type, holding what the conversion reads of it.
#[derive(Debug, PartialEq, Eq)]
pub enum RustType {
    /// `[elem; len]`, with the length expression kept as tokens.
    Array { elem: Box<RustType>, len: Vec<TokenTree> },
    /// `[elem]`.
    Slice,
    /// A path such as `glam::Vec2<f32>`, by its last segment.
    Path { last: PathSegment },
    /// A type in an invisible group, as macros produce.
    Group { elem: Box<RustType> },
    /// `(A, B, ...)`.
    Tuple,
    /// Any other kind of type (references, pointers, function types, ...).
    Other,
}

/// The last segment of a type path.
#[derive(Debug, PartialEq, Eq)]
pub struct PathSegment {
    /// The segment's identifier.
    pub ident: String,
    /// The first generic argument, where the segment has angle-bracketed
    /// arguments and at least one of them.
    pub first_generic: Option<GenericArg>,
}

/// A generic argument of a path segment.
#[derive(Debug, PartialEq, Eq)]
pub enum GenericArg {
    /// A type argument.
    Type(Box<RustType>),
    /// A lifetime, constant, binding or constraint.
    NotAType,
}

/// The size of a WGSL vector or square matrix.
#[derive(Clone, Copy, Debug, PartialEq, Eq, Structural)]
pub enum VectorSize {
    Two,
    Three,
    Four,
}

/// A WGSL type.
#[derive(Debug, PartialEq, Eq)]
pub enum WgslType {
    F32,
    I32,
    U32,
    Bool,
    /// `vecN<elem>`.
    Vector { size: VectorSize, elem: Box<WgslType> },
    /// `matNxN`.
    Matrix { size: VectorSize },
    /// `array<elem, len>`.
    Array { elem: Box<WgslType>, len: Vec<TokenTree> },
}

/// Why a Rust type has no WGSL counterpart.
#[derive(Debug, PartialEq, Eq)]
pub enum ConversionError {
    /// A slice, whose length is not known.
    SliceType,
    /// A tuple.
    TupleType,
    /// A kind of type other than arrays, slices, paths, groups and tuples.
    UnsupportedType,
    /// A path was expected.
    NotAPathType,
    /// A numeric type other than `f32`, `i32` and `u32`.
    UnsupportedNumericType,
    /// `Vec2`, `Vec3` or `Vec4` without a type argument.
    MissingVectorElementType,
    /// `Vec`.
    VecType,
    /// A named type that has no WGSL counterpart.
    UnknownType(String),
    /// An array was expected.
    NotAnArrayType,
}

/// Names of Rust numeric types that WGSL does not have.
pub open spec fn unsupported_numeric(n: Seq<char>) -> bool {
    ||| n == "f64"@
    ||| n == "f8"@
    ||| n == "u8"@
    ||| n == "u16"@
    ||| n == "u64"@
    ||| n == "u128"@
    ||| n == "i8"@
    ||| n == "i16"@
    ||| n == "i64"@
    ||| n == "i128"@
    ||| n == "usize"@
}

/// The WGSL type for a Rust type, or why there is none.
pub open spec fn wgsl_type_of(t: RustType) -> Result<WgslType, ConversionError>
    decreases t, 1nat,
{
    match t {
        RustType::Array { elem, len } => match wgsl_type_of(*elem) {
            Ok(e) => Ok(WgslType::Array { elem: Box::new(e), len }),
            Err(e) => Err(e),
        },
        RustType::Slice => Err(ConversionError::SliceType),
        RustType::Path { last } => wgsl_type_of_segment(last),
        RustType::Group { elem } => wgsl_type_of(*elem),
        RustType::Tuple => Err(ConversionError::TupleType),
        RustType::Other => Err(ConversionError::UnsupportedType),
    }
}

/// The vector size named by `Vec2`, `Vec3` or `Vec4`.
pub open spec fn vector_size_of(n: Seq<char>) -> Option<VectorSize> {
    if n == "Vec2"@ {
        Some(VectorSize::Two)
    } else if n == "Vec3"@ {
        Some(VectorSize::Three)
    } else if n == "Vec4"@ {
        Some(VectorSize::Four)
    } else {
        None
    }
}

/// The matrix size named by `Mat2`, `Mat3` or `Mat4`.
pub open spec fn matrix_size_of(n: Seq<char>) -> Option<VectorSize> {
    if n == "Mat2"@ {
        Some(VectorSize::Two)
    } else if n == "Mat3"@ {
        Some(VectorSize::Three)
    } else if n == "Mat4"@ {
        Some(VectorSize::Four)
    } else {
        None
    }
}

/// The WGSL type named by the last segment of a type path.
pub open spec fn wgsl_type_of_segment(s: PathSegment) -> Result<WgslType, ConversionError>
    decreases s, 0nat,
{
    let n = s.ident@;
    if n == "f32"@ {
        Ok(WgslType::F32)
    } else if unsupported_numeric(n) {
        Err(ConversionError::UnsupportedNumericType)
    } else if n == "i32"@ {
        Ok(WgslType::I32)
    } else if n == "u32"@ {
        Ok(WgslType::U32)
    } else if n == "bool"@ {
        Ok(WgslType::Bool)
    } else if vector_size_of(n) is Some {
        match s.first_generic {
            Some(GenericArg::Type(inner)) => match wgsl_type_of(*inner) {
                Ok(e) => Ok(WgslType::Vector { size: vector_size_of(n)->0, elem: Box::new(e) }),
                Err(e) => Err(e),
            },
            _ => Err(ConversionError::MissingVectorElementType),
        }
    } else if matrix_size_of(n) is Some {
        Ok(WgslType::Matrix { size: matrix_size_of(n)->0 })
    } else if n == "Vec"@ {
        Err(ConversionError::VecType)
    } else {
        Err(ConversionError::UnknownType(s.ident))
    }
}

/// Converts a Rust type to the WGSL type it stands for.
pub fn convert_rust_type_to_wgsl(ty: RustType) -> (r: Result<WgslType, ConversionError>)
    ensures
        r == wgsl_type_of(ty),
    decreases ty, 2nat,
{
    match ty {
        RustType::Array { elem, len } => rust_array_to_wgsl_array(RustType::Array { elem, len }),
        RustType::Slice => Err(ConversionError::SliceType),
        RustType::Path { last } => rust_handle_path_type(RustType::Path { last }),
        RustType::Group { elem } => convert_rust_type_to_wgsl(*elem),
        RustType::Tuple => Err(ConversionError::TupleType),
        RustType::Other => Err(ConversionError::UnsupportedType),
    }
}

/// Converts a Rust path type by its last segment.
pub fn rust_handle_path_type(ty: RustType) -> (r: Result<WgslType, ConversionError>)
    ensures
        r == (match ty {
            RustType::Path { last } => wgsl_type_of_segment(last),
            _ => Err(ConversionError::NotAPathType),
        }),
    decreases ty, 1nat,
{
    match ty {
        RustType::Path { last } => rust_handle_path_segment(last),
        _ => Err(ConversionError::NotAPathType),
    }
}

/// Converts the last segment of a Rust type path.
pub fn rust_handle_path_segment(segment: PathSegment) -> (r: Result<WgslType, ConversionError>)
    ensures
        r == wgsl_type_of_segment(segment),
    decreases segment, 0nat,
{
    let n = segment.ident.as_str();
    if str_eq(n, "f32") {
        Ok(WgslType::F32)
    } else if str_eq(n, "f64") || str_eq(n, "f8") || str_eq(n, "u8") || str_eq(n, "u16") || str_eq(
        n,
        "u64",
    ) || str_eq(n, "u128") || str_eq(n, "i8") || str_eq(n, "i16") || str_eq(n, "i64") || str_eq(
        n,
        "i128",
    ) || str_eq(n, "usize") {
        Err(ConversionError::UnsupportedNumericType)
    } else if str_eq(n, "i32") {
        Ok(WgslType::I32)
    } else if str_eq(n, "u32") {
        Ok(WgslType::U32)
    } else if str_eq(n, "bool") {
        Ok(WgslType::Bool)
    } else if str_eq(n, "Vec2") || str_eq(n, "Vec3") || str_eq(n, "Vec4") {
        let size = if str_eq(n, "Vec2") {
            VectorSize::Two
        } else if str_eq(n, "Vec3") {
            VectorSize::Three
        } else {
            VectorSize::Four
        };
        match segment.first_generic {
            Some(GenericArg::Type(inner)) => match convert_rust_type_to_wgsl(*inner) {
                Ok(e) => Ok(WgslType::Vector { size, elem: Box::new(e) }),
                Err(e) => Err(e),
            },
            _ => Err(ConversionError::MissingVectorElementType),
        }
    } else if str_eq(n, "Mat2") {
        Ok(WgslType::Matrix { size: VectorSize::Two })
    } else if str_eq(n, "Mat3") {
        Ok(WgslType::Matrix { size: VectorSize::Three })
    } else if str_eq(n, "Mat4") {
        Ok(WgslType::Matrix { size: VectorSize::Four })
    } else if str_eq(n, "Vec") {
        Err(ConversionError::VecType)
    } else {
        Err(ConversionError::UnknownType(segment.ident))
    }
}

/// Converts a Rust array type to a WGSL array of the same length.
pub fn rust_array_to_wgsl_array(ty: RustType) -> (r: Result<WgslType, ConversionError>)
    ensures
        r == (match ty {
            RustType::Array { .. } => wgsl_type_of(ty),
            _ => Err(ConversionError::NotAnArrayType),
        }),
    decreases ty, 1nat,
{
    match ty {
        RustType::Array { elem, len } => match convert_rust_type_to_wgsl(*elem) {
            Ok(e) => Ok(WgslType::Array { elem: Box::new(e), len }),
            Err(e) => Err(e),
        },
        _ => Err(ConversionError::NotAnArrayType),
    }
}

/// The message the macro reports for a conversion error.
pub open spec fn error_message(e: ConversionError) -> Seq<char> {
    match e {
        ConversionError::SliceType => "WGSL does not support slices or arrays with dynamic length."@,
        ConversionError::TupleType => "WGSL does not support Tuple types, use arrays instead."@,
        ConversionError::UnsupportedType => "Unsupported type"@,
        ConversionError::NotAPathType => "rust_handle_type_path was given a non-Type::Path type"@,
        ConversionError::UnsupportedNumericType => "WGSL only supports numeric types f32, f16, i32, and u32."@,
        ConversionError::MissingVectorElementType => "Vector types must specify their element type"@,
        ConversionError::VecType => "WGSL does not support Vec types."@,
        ConversionError::UnknownType(name) => "Unsupported type: "@ + name@,
        ConversionError::NotAnArrayType => "Expected array type"@,
    }
}

impl ConversionError {
    /// The message the macro reports for this error.
    pub fn message(&self) -> (r: String)
        ensures
            r@ == error_message(*self),
    {
        match self {
            ConversionError::SliceType => String::from_str(
                "WGSL does not support slices or arrays with dynamic length.",
            ),
            ConversionError::TupleType => String::from_str(
                "WGSL does not support Tuple types, use arrays instead.",
            ),
            ConversionError::UnsupportedType => String::from_str("Unsupported type"),
            ConversionError::NotAPathType => String::from_str(
                "rust_handle_type_path was given a non-Type::Path type",
            ),
            ConversionError::UnsupportedNumericType => String::from_str(
                "WGSL only supports numeric types f32, f16, i32, and u32.",
            ),
            ConversionError::MissingVectorElementType => String::from_str(
                "Vector types must specify their element type",
            ),
            ConversionError::VecType => String::from_str("WGSL does not support Vec types."),
            ConversionError::UnknownType(name) => String::from_str("Unsupported type: ").concat(
                name.as_str(),
            ),
            ConversionError::NotAnArrayType => String::from_str("Expected array type"),
        }
    }
}

/// An identifier synthesised at the macro's call site.
pub open spec fn call_site_ident(name: Seq<char>) -> Tree {
    Tree::Ident(name, TokenSpan::CallSite)
}

/// A lone punctuation character synthesised at the macro's call site.
pub open spec fn call_site_punct(ch: char) -> Tree {
    Tree::Punct(ch, Spacing::Alone, TokenSpan::CallSite)
}

/// The WGSL name of a vector of the given size.
pub open spec fn vector_name(size: VectorSize) -> Seq<char> {
    match size {
        VectorSize::Two => "vec2"@,
        VectorSize::Three => "vec3"@,
        VectorSize::Four => "vec4"@,
    }
}

/// The WGSL name of a square matrix of the given size.
pub open spec fn matrix_name(size: VectorSize) -> Seq<char> {
    match size {
        VectorSize::Two => "mat2x2"@,
        VectorSize::Three => "mat3x3"@,
        VectorSize::Four => "mat4x4"@,
    }
}

/// The tokens that spell a WGSL type.
pub open spec fn wgsl_tokens(w: WgslType) -> Seq<Tree>
    decreases w,
{
    match w {
        WgslType::F32 => seq![call_site_ident("f32"@)],
        WgslType::I32 => seq![call_site_ident("i32"@)],
        WgslType::U32 => seq![call_site_ident("u32"@)],
        WgslType::Bool => seq![call_site_ident("bool"@)],
        WgslType::Vector { size, elem } => seq![call_site_ident(vector_name(size)), call_site_punct('<')]
            + wgsl_tokens(*elem) + seq![call_site_punct('>')],
        WgslType::Matrix { size } => seq![call_site_ident(matrix_name(size))],
        WgslType::Array { elem, len } => seq![call_site_ident("array"@), call_site_punct('<')]
            + wgsl_tokens(*elem) + seq![call_site_punct(',')] + trees_view(len@) + seq![call_site_punct('>')],
    }
}

fn push_ident(out: &mut Vec<TokenTree>, name: &str)
    ensures
        trees_view(final(out)@) == trees_view(old(out)@).push(call_site_ident(name@)),
{
    let t = TokenTree::Ident { name: String::from_str(name), span: TokenSpan::CallSite };
    proof {
        lemma_trees_view_push(out@, t);
    }
    out.push(t);
}

fn push_punct(out: &mut Vec<TokenTree>, ch: char)
    ensures
        trees_view(final(out)@) == trees_view(old(out)@).push(call_site_punct(ch)),
{
    let t = TokenTree::Punct { ch, spacing: Spacing::Alone, span: TokenSpan::CallSite };
    proof {
        lemma_trees_view_push(out@, t);
    }
    out.push(t);
}

impl WgslType {
    /// Appends the tokens that spell this type to `out`.
    pub fn write_tokens(self, out: &mut Vec<TokenTree>)
        ensures
            trees_view(final(out)@) == trees_view(old(out)@) + wgsl_tokens(self),
        decreases self,
    {
        let ghost start = trees_view(out@);
        let ghost w = self;
        match self {
            WgslType::F32 => push_ident(out, "f32"),
            WgslType::I32 => push_ident(out, "i32"),
            WgslType::U32 => push_ident(out, "u32"),
            WgslType::Bool => push_ident(out, "bool"),
            WgslType::Vector { size, elem } => {
                match size {
                    VectorSize::Two => push_ident(out, "vec2"),
                    VectorSize::Three => push_ident(out, "vec3"),
                    VectorSize::Four => push_ident(out, "vec4"),
                }
                push_punct(out, '<');
                (*elem).write_tokens(out);
                push_punct(out, '>');
                proof {
                    assert(trees_view(out@) =~= start + wgsl_tokens(w));
                }
            },
            WgslType::Matrix { size } => match size {
                VectorSize::Two => push_ident(out, "mat2x2"),
                VectorSize::Three => push_ident(out, "mat3x3"),
                VectorSize::Four => push_ident(out, "mat4x4"),
            },
            WgslType::Array { elem, len } => {
                push_ident(out, "array");
                push_punct(out, '<');
                (*elem).write_tokens(out);
                push_punct(out, ',');
                let ghost before = out@;
                let ghost len_seq = len@;
                let mut len = len;
                out.append(&mut len);
                proof {
                    lemma_trees_view_add(before, len_seq);
                }
                push_punct(out, '>');
                proof {
                    assert(trees_view(out@) =~= start + wgsl_tokens(w));
                }
            },
        }
        proof {
            assert(trees_view(out@) =~= start + wgsl_tokens(w));
        }
    }

    /// The tokens that spell this type.
    pub fn into_tokens(self) -> (r: Vec<TokenTree>)
        ensures
            trees_view(r@) == wgsl_tokens(self),
    {
        let mut out: Vec<TokenTree> = Vec::new();
        proof {
            assert(trees_view(out@) =~= Seq::<Tree>::empty());
        }
        self.write_tokens(&mut out);
        proof {
            assert(Seq::<Tree>::empty() + wgsl_tokens(self) =~= wgsl_tokens(self));
        }
        out
    }
}

/// What the macro input was recognised as, with the types it converts.
#[derive(Debug, PartialEq, Eq)]
pub enum RustItem {
    /// A single type.
    Type(RustType),
    /// A struct, by the types of its fields in order.
    Struct { field_types: Vec<RustType> },
    /// A function, by its return type (if written) and its parameters in order.
    Function { output: Option<RustType>, inputs: Vec<FnInput> },
    /// Anything else; it is passed on unchanged.
    Unrecognized,
}

/// A function parameter.
#[derive(Debug, PartialEq, Eq)]
pub enum FnInput {
    /// `self`, `&self` or `&mut self`.
    Receiver,
    /// A parameter with a type.
    Typed(RustType),
}

/// The macro input with its types converted.
#[derive(Debug, PartialEq, Eq)]
pub enum WgslItem {
    /// The WGSL type for the input type.
    Type(WgslType),
    /// The WGSL types for the struct's fields, in order.
    Struct { field_types: Vec<WgslType> },
    /// The WGSL return type, and the WGSL type of each typed parameter
    /// (`None` for a receiver, which is kept).
    Function { output: Option<WgslType>, inputs: Vec<Option<WgslType>> },
    /// The input is passed on unchanged.
    Unchanged,
}

/// The WGSL types of `s` in order, or the error for the first one that has
/// none.
pub open spec fn wgsl_types_of(s: Seq<RustType>) -> Result<Seq<WgslType>, ConversionError>
    decreases s.len(),
{
    if s.len() == 0 {
        Ok(Seq::empty())
    } else {
        match wgsl_type_of(s[0]) {
            Err(e) => Err(e),
            Ok(w) => match wgsl_types_of(s.subrange(1, s.len() as int)) {
                Ok(ws) => Ok(seq![w] + ws),
                Err(e) => Err(e),
            },
        }
    }
}

/// The WGSL type of a function parameter: none for a receiver.
pub open spec fn wgsl_input_of(i: FnInput) -> Result<Option<WgslType>, ConversionError> {
    match i {
        FnInput::Receiver => Ok(None),
        FnInput::Typed(t) => match wgsl_type_of(t) {
            Ok(w) => Ok(Some(w)),
            Err(e) => Err(e),
        },
    }
}

/// The WGSL return type of a function, if it has one written.
pub open spec fn wgsl_output_of(output: Option<RustType>) -> Result<Option<WgslType>, ConversionError> {
    match output {
        Some(t) => match wgsl_type_of(t) {
            Ok(w) => Ok(Some(w)),
            Err(e) => Err(e),
        },
        None => Ok(None),
    }
}

/// The WGSL types of the parameters `s` in order, or the error for the first
/// typed parameter whose type has none.
pub open spec fn wgsl_inputs_of(s: Seq<FnInput>) -> Result<Seq<Option<WgslType>>, ConversionError>
    decreases s.len(),
{
    if s.len() == 0 {
        Ok(Seq::empty())
    } else {
        match wgsl_input_of(s[0]) {
            Err(e) => Err(e),
            Ok(w) => match wgsl_inputs_of(s.subrange(1, s.len() as int)) {
                Ok(ws) => Ok(seq![w] + ws),
                Err(e) => Err(e),
            },
        }
    }
}

/// `rest` converted, after the already converted `done`.
pub open spec fn after<T>(done: Seq<T>, rest: Result<Seq<T>, ConversionError>) -> Result<Seq<T>, ConversionError> {
    match rest {
        Ok(ws) => Ok(done + ws),
        Err(e) => Err(e),
    }
}

/// Converts each type of `types` in order; fails with the first error.
pub fn convert_rust_types_to_wgsl(types: Vec<RustType>) -> (r: Result<Vec<WgslType>, ConversionError>)
    ensures
        match wgsl_types_of(types@) {
            Ok(ws) => r matches Ok(v) && v@ == ws,
            Err(e) => r == Err::<Vec<WgslType>, ConversionError>(e),
        },
{
    let ghost orig = types@;
    let mut pending = reversed(types);
    let mut out: Vec<WgslType> = Vec::new();
    proof {
        assert(pending@.reverse() =~= orig);
        assert(Seq::<WgslType>::empty() + Seq::<WgslType>::empty() =~= Seq::<WgslType>::empty());
        match wgsl_types_of(orig) {
            Ok(ws) => assert(out@ + ws =~= ws),
            Err(_) => {},
        }
    }
    while pending.len() > 0
        invariant
            orig == types@,
            after(out@, wgsl_types_of(pending@.reverse())) == wgsl_types_of(orig),
        decreases pending.len(),
    {
        let ghost p = pending@;
        let ghost before = p.reverse();
        let t = pending.pop().unwrap();
        let ghost rest = pending@.reverse();
        proof {
            assert(pending@ == p.drop_last());
            assert(before =~= seq![t] + rest);
            assert(before[0] == t);
            assert(before.subrange(1, before.len() as int) =~= rest);
        }
        match convert_rust_type_to_wgsl(t) {
            Ok(w) => {
                proof {
                    match wgsl_types_of(rest) {
                        Ok(ws) => assert(out@.push(w) + ws =~= out@ + (seq![w] + ws)),
                        Err(_) => {},
                    }
                }
                out.push(w);
            },
            Err(e) => {
                proof {
                    assert(wgsl_types_of(before) == Err::<Seq<WgslType>, ConversionError>(e));
                }
                return Err(e);
            },
        }
    }
    proof {
        assert(pending@.reverse() =~= Seq::<RustType>::empty());
        assert(out@ + Seq::<WgslType>::empty() =~= out@);
    }
    Ok(out)
}

/// Converts the type of a function parameter; a receiver has none.
pub fn convert_fn_input(input: FnInput) -> (r: Result<Option<WgslType>, ConversionError>)
    ensures
        r == wgsl_input_of(input),
{
    match input {
        FnInput::Receiver => Ok(None),
        FnInput::Typed(t) => match convert_rust_type_to_wgsl(t) {
            Ok(w) => Ok(Some(w)),
            Err(e) => Err(e),
        },
    }
}

/// Converts the types of the parameters `inputs` in order; fails with the
/// first error.
pub fn convert_fn_inputs(inputs: Vec<FnInput>) -> (r: Result<Vec<Option<WgslType>>, ConversionError>)
    ensures
        match wgsl_inputs_of(inputs@) {
            Ok(ws) => r matches Ok(v) && v@ == ws,
            Err(e) => r == Err::<Vec<Option<WgslType>>, ConversionError>(e),
        },
{
    let ghost orig = inputs@;
    let mut pending = reversed(inputs);
    let mut out: Vec<Option<WgslType>> = Vec::new();
    proof {
        assert(pending@.reverse() =~= orig);
        match wgsl_inputs_of(orig) {
            Ok(ws) => assert(out@ + ws =~= ws),
            Err(_) => {},
        }
    }
    while pending.len() > 0
        invariant
            orig == inputs@,
            after(out@, wgsl_inputs_of(pending@.reverse())) == wgsl_inputs_of(orig),
        decreases pending.len(),
    {
        let ghost p = pending@;
        let ghost before = p.reverse();
        let t = pending.pop().unwrap();
        let ghost rest = pending@.reverse();
        proof {
            assert(pending@ == p.drop_last());
            assert(before =~= seq![t] + rest);
            assert(before[0] == t);
            assert(before.subrange(1, before.len() as int) =~= rest);
        }
        match convert_fn_input(t) {
            Ok(w) => {
                proof {
                    match wgsl_inputs_of(rest) {
                        Ok(ws) => assert(out@.push(w) + ws =~= out@ + (seq![w] + ws)),
                        Err(_) => {},
                    }
                }
                out.push(w);
            },
            Err(e) => {
                proof {
                    assert(wgsl_inputs_of(before) == Err::<Seq<Option<WgslType>>, ConversionError>(e));
                }
                return Err(e);
            },
        }
    }
    proof {
        assert(pending@.reverse() =~= Seq::<FnInput>::empty());
        assert(out@ + Seq::<Option<WgslType>>::empty() =~= out@);
    }
    Ok(out)
}

/// Converts every Rust type in the macro input to its WGSL type: the input
/// type itself, the types of a struct's fields, or the return type and
/// parameter types of a function, in that order. Fails with the first error;
/// anything else is passed on unchanged.
pub fn convert_rust_item(item: RustItem) -> (r: Result<WgslItem, ConversionError>)
    ensures
        match item {
            RustItem::Type(t) => match wgsl_type_of(t) {
                Ok(w) => r == Ok::<WgslItem, ConversionError>(WgslItem::Type(w)),
                Err(e) => r == Err::<WgslItem, ConversionError>(e),
            },
            RustItem::Struct { field_types } => match wgsl_types_of(field_types@) {
                Ok(ws) => r matches Ok(WgslItem::Struct { field_types: v }) && v@ == ws,
                Err(e) => r == Err::<WgslItem, ConversionError>(e),
            },
            RustItem::Function { output, inputs } => match wgsl_output_of(output) {
                Err(e) => r == Err::<WgslItem, ConversionError>(e),
                Ok(o) => match wgsl_inputs_of(inputs@) {
                    Ok(ws) => r matches Ok(WgslItem::Function { output: ro, inputs: v }) && ro == o && v@
                        == ws,
                    Err(e) => r == Err::<WgslItem, ConversionError>(e),
                },
            },
            RustItem::Unrecognized => r == Ok::<WgslItem, ConversionError>(WgslItem::Unchanged),
        },
{
    match item {
        RustItem::Type(t) => match convert_rust_type_to_wgsl(t) {
            Ok(w) => Ok(WgslItem::Type(w)),
            Err(e) => Err(e),
        },
        RustItem::Struct { field_types } => match convert_rust_types_to_wgsl(field_types) {
            Ok(v) => Ok(WgslItem::Struct { field_types: v }),
            Err(e) => Err(e),
        },
        RustItem::Function { output, inputs } => {
            let out = match output {
                Some(t) => match convert_rust_type_to_wgsl(t) {
                    Ok(w) => Some(w),
                    Err(e) => {
                        return Err(e);
                    },
                },
                None => None,
            };
            match convert_fn_inputs(inputs) {
                Ok(v) => Ok(WgslItem::Function { output: out, inputs: v }),
                Err(e) => Err(e),
            }
        },
        RustItem::Unrecognized => Ok(WgslItem::Unchanged),
    }
}

/// A type in an invisible group converts as the type itself.
pub proof fn law_group_is_transparent(elem: RustType)
    ensures
        wgsl_type_of(RustType::Group { elem: Box::new(elem) }) == wgsl_type_of(elem),
{
}

/// `[T; N]` becomes `array<W, N>`, with the very same length tokens,
/// exactly when `T` becomes `W`; otherwise it fails as `T` does.
pub proof fn law_array_keeps_length(elem: RustType, len: Vec<TokenTree>)
    ensures
        wgsl_type_of(RustType::Array { elem: Box::new(elem), len }) == (match wgsl_type_of(elem) {
            Ok(w) => Ok(WgslType::Array { elem: Box::new(w), len }),
            Err(e) => Err(e),
        }),
{
}

/// WGSL has no slices and no tuples: a slice or a tuple never converts, nor
/// does any array, group or vector that holds one.
pub proof fn law_slices_and_tuples_rejected(t: RustType)
    ensures
        t is Slice ==> wgsl_type_of(t) == Err::<WgslType, ConversionError>(ConversionError::SliceType),
        t is Tuple ==> wgsl_type_of(t) == Err::<WgslType, ConversionError>(ConversionError::TupleType),
{
}

/// The scalar names `f32`, `i32`, `u32` and `bool` are pairwise distinct,
/// none of them is an unsupported numeric name, and the vector names
/// `Vec2`, `Vec3` and `Vec4` are none of these.
proof fn lemma_scalar_names_distinct()
    ensures
        forall|n: Seq<char>| #[trigger] vector_size_of(n) is Some ==> !unsupported_numeric(n) && n != "f32"@ && n
            != "i32"@ && n != "u32"@ && n != "bool"@,
        forall|n: Seq<char>| unsupported_numeric(n) ==> n != "f32"@,
        !unsupported_numeric("i32"@),
        !unsupported_numeric("u32"@),
        !unsupported_numeric("bool"@),
        "i32"@ != "f32"@,
        "u32"@ != "f32"@,
        "u32"@ != "i32"@,
        "bool"@ != "f32"@,
        "bool"@ != "i32"@,
        "bool"@ != "u32"@,
{
    reveal_strlit("f32");
    assert("f32"@.len() == 3 && "f32"@[0] == 'f' && "f32"@[1] == '3');
    reveal_strlit("f64");
    assert("f64"@.len() == 3 && "f64"@[0] == 'f' && "f64"@[1] == '6');
    reveal_strlit("f8");
    assert("f8"@.len() == 2 && "f8"@[0] == 'f' && "f8"@[1] == '8');
    reveal_strlit("u8");
    assert("u8"@.len() == 2 && "u8"@[0] == 'u' && "u8"@[1] == '8');
    reveal_strlit("u16");
    assert("u16"@.len() == 3 && "u16"@[0] == 'u' && "u16"@[1] == '1');
    reveal_strlit("u64");
    assert("u64"@.len() == 3 && "u64"@[0] == 'u' && "u64"@[1] == '6');
    reveal_strlit("u128");
    assert("u128"@.len() == 4 && "u128"@[0] == 'u' && "u128"@[1] == '1');
    reveal_strlit("i8");
    assert("i8"@.len() == 2 && "i8"@[0] == 'i' && "i8"@[1] == '8');
    reveal_strlit("i16");
    assert("i16"@.len() == 3 && "i16"@[0] == 'i' && "i16"@[1] == '1');
    reveal_strlit("i64");
    assert("i64"@.len() == 3 && "i64"@[0] == 'i' && "i64"@[1] == '6');
    reveal_strlit("i128");
    assert("i128"@.len() == 4 && "i128"@[0] == 'i' && "i128"@[1] == '1');
    reveal_strlit("usize");
    assert("usize"@.len() == 5 && "usize"@[0] == 'u' && "usize"@[1] == 's');
    reveal_strlit("i32");
    assert("i32"@.len() == 3 && "i32"@[0] == 'i' && "i32"@[1] == '3');
    reveal_strlit("u32");
    assert("u32"@.len() == 3 && "u32"@[0] == 'u' && "u32"@[1] == '3');
    reveal_strlit("bool");
    assert("bool"@.len() == 4 && "bool"@[0] == 'b' && "bool"@[1] == 'o');
    reveal_strlit("Vec2");
    assert("Vec2"@.len() == 4 && "Vec2"@[0] == 'V');
    reveal_strlit("Vec3");
    assert("Vec3"@.len() == 4 && "Vec3"@[0] == 'V');
    reveal_strlit("Vec4");
    assert("Vec4"@.len() == 4 && "Vec4"@[0] == 'V');
}

/// Of Rust's numeric types only `f32`, `i32` and `u32` convert; the others
/// are rejected as unsupported numeric types.
pub proof fn law_unsupported_numeric_rejected(segment: PathSegment)
    requires
        unsupported_numeric(segment.ident@),
    ensures
        wgsl_type_of_segment(segment) == Err::<WgslType, ConversionError>(
            ConversionError::UnsupportedNumericType,
        ),
{
    lemma_scalar_names_distinct();
}

/// The scalar types convert to themselves: `f32`, `i32`, `u32` and `bool`
/// keep their names in WGSL.
pub proof fn law_scalars_keep_their_names(segment: PathSegment)
    ensures
        segment.ident@ == "f32"@ ==> wgsl_tokens(wgsl_type_of_segment(segment)->Ok_0) == seq![
            call_site_ident(segment.ident@),
        ],
        segment.ident@ == "i32"@ ==> wgsl_tokens(wgsl_type_of_segment(segment)->Ok_0) == seq![
            call_site_ident(segment.ident@),
        ],
        segment.ident@ == "u32"@ ==> wgsl_tokens(wgsl_type_of_segment(segment)->Ok_0) == seq![
            call_site_ident(segment.ident@),
        ],
        segment.ident@ == "bool"@ ==> wgsl_tokens(wgsl_type_of_segment(segment)->Ok_0) == seq![
            call_site_ident(segment.ident@),
        ],
{
    lemma_scalar_names_distinct();
}

/// The names of WGSL types that the conversion writes.
pub open spec fn wgsl_type_name(n: Seq<char>) -> bool {
    ||| n == "f32"@
    ||| n == "i32"@
    ||| n == "u32"@
    ||| n == "bool"@
    ||| n == "vec2"@
    ||| n == "vec3"@
    ||| n == "vec4"@
    ||| n == "mat2x2"@
    ||| n == "mat3x3"@
    ||| n == "mat4x4"@
    ||| n == "array"@
}

/// Whether `t` is a token of WGSL type syntax written by the conversion: the
/// name of a WGSL type, or `<`, `,` or `>`, at the macro's call site.
pub open spec fn wgsl_syntax_token(t: Tree) -> bool {
    ||| t matches Tree::Ident(n, sp) && sp == TokenSpan::CallSite && wgsl_type_name(n)
    ||| t == call_site_punct('<')
    ||| t == call_site_punct(',')
    ||| t == call_site_punct('>')
}

/// The length tokens of the arrays in a WGSL type, outermost last.
pub open spec fn array_length_tokens(w: WgslType) -> Seq<Tree>
    decreases w,
{
    match w {
        WgslType::Vector { elem, .. } => array_length_tokens(*elem),
        WgslType::Array { elem, len } => array_length_tokens(*elem) + trees_view(len@),
        _ => Seq::empty(),
    }
}

/// The tokens written for a converted type are WGSL type syntax, except the
/// length tokens of its arrays, which are carried over from the Rust type.
pub proof fn law_wgsl_tokens_are_wgsl_syntax(w: WgslType)
    ensures
        forall|i: int|
            0 <= i < wgsl_tokens(w).len() ==> wgsl_syntax_token(#[trigger] wgsl_tokens(w)[i])
                || array_length_tokens(w).contains(wgsl_tokens(w)[i]),
    decreases w,
{
    let s = wgsl_tokens(w);
    match w {
        WgslType::Vector { size, elem } => {
            let e = wgsl_tokens(*elem);
            law_wgsl_tokens_are_wgsl_syntax(*elem);
            assert forall|i: int| 0 <= i < s.len() implies wgsl_syntax_token(#[trigger] s[i])
                || array_length_tokens(w).contains(s[i]) by {
                if 2 <= i < 2 + e.len() {
                    assert(s[i] == e[i - 2]);
                }
            }
        },
        WgslType::Array { elem, len } => {
            let e = wgsl_tokens(*elem);
            let l = trees_view(len@);
            let inner = array_length_tokens(*elem);
            law_wgsl_tokens_are_wgsl_syntax(*elem);
            assert forall|i: int| 0 <= i < s.len() implies wgsl_syntax_token(#[trigger] s[i])
                || array_length_tokens(w).contains(s[i]) by {
                if 2 <= i < 2 + e.len() {
                    assert(s[i] == e[i - 2]);
                    if !wgsl_syntax_token(e[i - 2]) {
                        let j = choose|j: int| 0 <= j < inner.len() && inner[j] == e[i - 2];
                        assert(array_length_tokens(w)[j] == inner[j]);
                    }
                } else if 3 + e.len() <= i < 3 + e.len() + l.len() {
                    let j = i - 3 - e.len();
                    assert(s[i] == l[j]);
                    assert(array_length_tokens(w)[inner.len() + j] == l[j]);
                }
            }
        },
        _ => {},
    }
}

/// The length tokens of the arrays written in a Rust type, in the order in
/// which the conversion reads them (an element before its array's length).
pub open spec fn rust_array_length_tokens(t: RustType) -> Seq<Tree>
    decreases t,
{
    match t {
        RustType::Array { elem, len } => rust_array_length_tokens(*elem) + trees_view(len@),
        RustType::Path { last } => match last.first_generic {
            Some(GenericArg::Type(inner)) => rust_array_length_tokens(*inner),
            _ => Seq::empty(),
        },
        RustType::Group { elem } => rust_array_length_tokens(*elem),
        _ => Seq::empty(),
    }
}

proof fn lemma_lengths_come_from_input(t: RustType)
    requires
        wgsl_type_of(t) is Ok,
    ensures
        forall|x: Tree|
            #[trigger] array_length_tokens(wgsl_type_of(t)->Ok_0).contains(x) ==> rust_array_length_tokens(
                t,
            ).contains(x),
    decreases t,
{
    let w = wgsl_type_of(t)->Ok_0;
    match t {
        RustType::Array { elem, len } => {
            lemma_lengths_come_from_input(*elem);
            let a = array_length_tokens(wgsl_type_of(*elem)->Ok_0);
            let b = rust_array_length_tokens(*elem);
            let l = trees_view(len@);
            assert(array_length_tokens(w) == a + l);
            assert(rust_array_length_tokens(t) == b + l);
            assert forall|x: Tree| #[trigger] array_length_tokens(w).contains(x) implies rust_array_length_tokens(
                t,
            ).contains(x) by {
                let j = choose|j: int| 0 <= j < (a + l).len() && (a + l)[j] == x;
                if j < a.len() {
                    assert(a[j] == x);
                    assert(a.contains(x));
                    let k = choose|k: int| 0 <= k < b.len() && b[k] == x;
                    assert((b + l)[k] == x);
                } else {
                    assert((b + l)[b.len() + (j - a.len())] == x);
                }
            }
        },
        RustType::Path { last } => {
            assert(wgsl_type_of(t) == wgsl_type_of_segment(last));
            match w {
                WgslType::Vector { elem, .. } => {
                    assert(vector_size_of(last.ident@) is Some);
                    if let Some(GenericArg::Type(inner)) = last.first_generic {
                        lemma_lengths_come_from_input(*inner);
                        assert(*elem == wgsl_type_of(*inner)->Ok_0);
                        assert(rust_array_length_tokens(t) == rust_array_length_tokens(*inner));
                        assert(array_length_tokens(w) == array_length_tokens(*elem));
                    }
                },
                WgslType::Array { .. } => {},
                _ => {
                    assert(array_length_tokens(w) =~= Seq::<Tree>::empty());
                },
            }
        },
        RustType::Group { elem } => {
            lemma_lengths_come_from_input(*elem);
            assert(w == wgsl_type_of(*elem)->Ok_0);
            assert(rust_array_length_tokens(t) == rust_array_length_tokens(*elem));
        },
        _ => {},
    }
}

/// A converted type is written with WGSL type syntax alone (the names
/// `f32`, `i32`, `u32`, `bool`, `vecN`, `matNxN`, `array` and `<`, `,`,
/// `>`), but for the length tokens of the arrays written in the Rust type,
/// which are carried over: no Rust type name survives the conversion.
pub proof fn law_converted_type_is_wgsl_syntax_or_input_lengths(t: RustType)
    ensures
        wgsl_type_of(t) matches Ok(w) ==> forall|i: int|
            0 <= i < wgsl_tokens(w).len() ==> wgsl_syntax_token(#[trigger] wgsl_tokens(w)[i])
                || rust_array_length_tokens(t).contains(wgsl_tokens(w)[i]),
{
    if let Ok(w) = wgsl_type_of(t) {
        law_wgsl_tokens_are_wgsl_syntax(w);
        lemma_lengths_come_from_input(t);
        assert forall|i: int| 0 <= i < wgsl_tokens(w).len() implies wgsl_syntax_token(#[trigger] wgsl_tokens(w)[i])
            || rust_array_length_tokens(t).contains(wgsl_tokens(w)[i]) by {
            if !wgsl_syntax_token(wgsl_tokens(w)[i]) {
                assert(array_length_tokens(w).contains(wgsl_tokens(w)[i]));
            }
        }
    }
}

/// A vector converts element by element: `Vec2<T>`, `Vec3<T>` and `Vec4<T>`
/// become `vecN<W>`, of the same size, for every element type `T` that
/// converts to `W` (scalars, vectors, arrays alike), and fail as `T` does
/// otherwise.
pub proof fn law_vectors_convert_their_element(last: PathSegment, inner: RustType)
    requires
        vector_size_of(last.ident@) is Some,
        last.first_generic == Some(GenericArg::Type(Box::new(inner))),
    ensures
        wgsl_type_of(inner) matches Ok(e) ==> wgsl_type_of(RustType::Path { last }) == Ok::<WgslType, ConversionError>(
            WgslType::Vector { size: vector_size_of(last.ident@)->0, elem: Box::new(e) },
        ),
        wgsl_type_of(inner) matches Err(e) ==> wgsl_type_of(RustType::Path { last }) == Err::<WgslType, ConversionError>(e),
{
    lemma_scalar_names_distinct();
    let n = last.ident@;
    assert(!unsupported_numeric(n) && n != "f32"@ && n != "i32"@ && n != "u32"@ && n != "bool"@);
    assert(wgsl_type_of(RustType::Path { last }) == wgsl_type_of_segment(last));
}

/// An array is spelled `array<E, N>`: `array`, `<`, the spelling of its
/// element type as one block, `,`, its own length tokens, `>`. So a nested
/// array's length stays inside the element's brackets, and the outermost
/// length comes last.
pub proof fn law_array_spelling(elem: WgslType, len: Vec<TokenTree>)
    ensures
        ({
            let s = wgsl_tokens(WgslType::Array { elem: Box::new(elem), len });
            let e = wgsl_tokens(elem);
            let n = e.len() as int;
            let l = trees_view(len@);
            &&& s.len() == e.len() + l.len() + 4
            &&& s[0] == call_site_ident("array"@)
            &&& s[1] == call_site_punct('<')
            &&& s.subrange(2, 2 + n) == e
            &&& s[2 + n] == call_site_punct(',')
            &&& s.subrange(3 + n, s.len() - 1) == l
            &&& s[s.len() - 1] == call_site_punct('>')
        }),
{
    let s = wgsl_tokens(WgslType::Array { elem: Box::new(elem), len });
    let e = wgsl_tokens(elem);
    let l = trees_view(len@);
    let n = e.len() as int;
    assert(s.subrange(2, 2 + n) =~= e);
    assert(s.subrange(3 + n, s.len() - 1) =~= l);
}

/// The Rust names of vectors and matrices become the WGSL names of the same
/// size: `Mat2`, `Mat3`, `Mat4` are spelled `mat2x2`, `mat3x3`, `mat4x4`,
/// and `Vec2<T>`, `Vec3<T>`, `Vec4<T>` (with `T` convertible to `W`) are
/// spelled `vec2`, `vec3`, `vec4`, then `<`, the spelling of `W` and `>`.
pub proof fn law_sized_names(last: PathSegment)
    ensures
        last.ident@ == "Mat2"@ ==> (wgsl_type_of_segment(last) matches Ok(w) && wgsl_tokens(w) == seq![call_site_ident("mat2x2"@)]),
        last.ident@ == "Mat3"@ ==> (wgsl_type_of_segment(last) matches Ok(w) && wgsl_tokens(w) == seq![call_site_ident("mat3x3"@)]),
        last.ident@ == "Mat4"@ ==> (wgsl_type_of_segment(last) matches Ok(w) && wgsl_tokens(w) == seq![call_site_ident("mat4x4"@)]),
        (last.first_generic matches Some(GenericArg::Type(inner)) && wgsl_type_of(*inner) is Ok) ==> {
            let e = wgsl_tokens(wgsl_type_of(*last.first_generic->0->0)->Ok_0);
            let tail = seq![call_site_punct('<')] + e + seq![call_site_punct('>')];
            &&& last.ident@ == "Vec2"@ ==> (wgsl_type_of_segment(last) matches Ok(w) && wgsl_tokens(w) == seq![call_site_ident("vec2"@)] + tail)
            &&& last.ident@ == "Vec3"@ ==> (wgsl_type_of_segment(last) matches Ok(w) && wgsl_tokens(w) == seq![call_site_ident("vec3"@)] + tail)
            &&& last.ident@ == "Vec4"@ ==> (wgsl_type_of_segment(last) matches Ok(w) && wgsl_tokens(w) == seq![call_site_ident("vec4"@)] + tail)
        },
{
    lemma_sized_names_distinct();
    if let Some(GenericArg::Type(inner)) = last.first_generic {
        if let Ok(we) = wgsl_type_of(*inner) {
            let e = wgsl_tokens(we);
            let tail = seq![call_site_punct('<')] + e + seq![call_site_punct('>')];
            assert(seq![call_site_ident("vec2"@), call_site_punct('<')] + e + seq![call_site_punct('>')] =~= seq![call_site_ident("vec2"@)] + tail);
            assert(seq![call_site_ident("vec3"@), call_site_punct('<')] + e + seq![call_site_punct('>')] =~= seq![call_site_ident("vec3"@)] + tail);
            assert(seq![call_site_ident("vec4"@), call_site_punct('<')] + e + seq![call_site_punct('>')] =~= seq![call_site_ident("vec4"@)] + tail);
        }
    }
}

/// The names `Mat2`, `Mat3`, `Mat4`, `Vec2`, `Vec3`, `Vec4` are pairwise
/// distinct, and none of them is a scalar name, an unsupported numeric name
/// or `Vec`.
proof fn lemma_sized_names_distinct()
    ensures
        forall|n: Seq<char>|
            #![trigger matrix_size_of(n)]
            #![trigger vector_size_of(n)]
            (n == "Mat2"@ || n == "Mat3"@ || n == "Mat4"@ || n == "Vec2"@ || n == "Vec3"@ || n == "Vec4"@) ==> {
                &&& !unsupported_numeric(n)
                &&& n != "f32"@ && n != "i32"@ && n != "u32"@ && n != "bool"@
                &&& (n == "Mat2"@ || n == "Mat3"@ || n == "Mat4"@) ==> vector_size_of(n) is None
                &&& n == "Mat2"@ ==> matrix_size_of(n) == Some(VectorSize::Two)
                &&& n == "Mat3"@ ==> matrix_size_of(n) == Some(VectorSize::Three)
                &&& n == "Mat4"@ ==> matrix_size_of(n) == Some(VectorSize::Four)
                &&& n == "Vec2"@ ==> vector_size_of(n) == Some(VectorSize::Two)
                &&& n == "Vec3"@ ==> vector_size_of(n) == Some(VectorSize::Three)
                &&& n == "Vec4"@ ==> vector_size_of(n) == Some(VectorSize::Four)
            },
{
    lemma_scalar_names_distinct();
    reveal_strlit("Mat2");
    reveal_strlit("Mat3");
    reveal_strlit("Mat4");
    reveal_strlit("Vec2");
    reveal_strlit("Vec3");
    reveal_strlit("Vec4");
    assert("Mat2"@[0] == 'M' && "Mat3"@[0] == 'M' && "Mat4"@[0] == 'M');
    assert("Mat2"@.len() == 4 && "Mat3"@.len() == 4 && "Mat4"@.len() == 4);
    assert("Vec2"@[0] == 'V' && "Vec3"@[0] == 'V' && "Vec4"@[0] == 'V');
    assert("Mat2"@[3] == '2' && "Mat3"@[3] == '3' && "Mat4"@[3] == '4');
    assert("Vec2"@[3] == '2' && "Vec3"@[3] == '3' && "Vec4"@[3] == '4');
    reveal_strlit("f64");
    reveal_strlit("f8");
    reveal_strlit("u8");
    reveal_strlit("u16");
    reveal_strlit("u64");
    reveal_strlit("u128");
    reveal_strlit("i8");
    reveal_strlit("i16");
    reveal_strlit("i64");
    reveal_strlit("i128");
    reveal_strlit("usize");
    reveal_strlit("f32");
    reveal_strlit("i32");
    reveal_strlit("u32");
    reveal_strlit("bool");
    assert("f64"@[0] == 'f' && "f8"@[0] == 'f' && "u8"@[0] == 'u' && "u16"@[0] == 'u' && "u64"@[0] == 'u');
    assert("u128"@[0] == 'u' && "i8"@[0] == 'i' && "i16"@[0] == 'i' && "i64"@[0] == 'i' && "i128"@[0] == 'i');
    assert("usize"@[0] == 'u' && "f32"@[0] == 'f' && "i32"@[0] == 'i' && "u32"@[0] == 'u' && "bool"@[0] == 'b');
}

} // verus!
