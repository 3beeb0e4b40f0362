use wgsl_ln::conversions::{
    convert_rust_item, convert_rust_type_to_wgsl, rust_array_to_wgsl_array,
    rust_handle_path_segment, rust_handle_path_type, ConversionError, FnInput, GenericArg, PathSegment,
    RustItem, RustType, VectorSize, WgslItem, WgslType,
};
use wgsl_ln::tokens::{Spacing, TokenSpan, TokenTree};

fn path(name: &str) -> RustType {
    RustType::Path { last: PathSegment { ident: name.to_string(), first_generic: None } }
}

fn generic(name: &str, arg: RustType) -> RustType {
    RustType::Path {
        last: PathSegment { ident: name.to_string(), first_generic: Some(GenericArg::Type(Box::new(arg))) },
    }
}

fn lit(text: &str, at: usize) -> TokenTree {
    TokenTree::Literal { text: text.to_string(), span: TokenSpan::Source(at) }
}

fn cs_ident(name: &str) -> TokenTree {
    TokenTree::Ident { name: name.to_string(), span: TokenSpan::CallSite }
}

fn cs_punct(ch: char) -> TokenTree {
    TokenTree::Punct { ch, spacing: Spacing::Alone, span: TokenSpan::CallSite }
}

#[test]
fn scalars_convert_to_themselves() {
    assert_eq!(convert_rust_type_to_wgsl(path("f32")), Ok(WgslType::F32));
    assert_eq!(convert_rust_type_to_wgsl(path("i32")), Ok(WgslType::I32));
    assert_eq!(convert_rust_type_to_wgsl(path("u32")), Ok(WgslType::U32));
    assert_eq!(convert_rust_type_to_wgsl(path("bool")), Ok(WgslType::Bool));
    assert_eq!(WgslType::F32.into_tokens(), vec![cs_ident("f32")]);
    assert_eq!(WgslType::Bool.into_tokens(), vec![cs_ident("bool")]);
}

#[test]
fn other_numeric_types_are_rejected() {
    for name in ["f64", "f8", "u8", "u16", "u64", "u128", "i8", "i16", "i64", "i128", "usize"] {
        assert_eq!(convert_rust_type_to_wgsl(path(name)), Err(ConversionError::UnsupportedNumericType));
    }
    assert_eq!(
        ConversionError::UnsupportedNumericType.message(),
        "WGSL only supports numeric types f32, f16, i32, and u32."
    );
}

#[test]
fn f16_and_isize_are_unknown_types() {
    assert_eq!(
        convert_rust_type_to_wgsl(path("f16")),
        Err(ConversionError::UnknownType("f16".to_string()))
    );
    assert_eq!(
        convert_rust_type_to_wgsl(path("isize")),
        Err(ConversionError::UnknownType("isize".to_string()))
    );
    assert_eq!(ConversionError::UnknownType("f16".to_string()).message(), "Unsupported type: f16");
}

#[test]
fn vectors_and_matrices() {
    let v = convert_rust_type_to_wgsl(generic("Vec3", path("f32"))).unwrap();
    assert_eq!(v, WgslType::Vector { size: VectorSize::Three, elem: Box::new(WgslType::F32) });
    assert_eq!(v.into_tokens(), vec![cs_ident("vec3"), cs_punct('<'), cs_ident("f32"), cs_punct('>')]);
    let v2 = convert_rust_type_to_wgsl(generic("Vec2", path("u32"))).unwrap();
    assert_eq!(v2.into_tokens(), vec![cs_ident("vec2"), cs_punct('<'), cs_ident("u32"), cs_punct('>')]);
    let v4 = convert_rust_type_to_wgsl(generic("Vec4", path("i32"))).unwrap();
    assert_eq!(v4.into_tokens(), vec![cs_ident("vec4"), cs_punct('<'), cs_ident("i32"), cs_punct('>')]);
    for (name, wgsl) in [("Mat2", "mat2x2"), ("Mat3", "mat3x3"), ("Mat4", "mat4x4")] {
        let m = convert_rust_type_to_wgsl(path(name)).unwrap();
        assert_eq!(m.into_tokens(), vec![cs_ident(wgsl)]);
    }
}

#[test]
fn vector_errors() {
    assert_eq!(
        convert_rust_type_to_wgsl(path("Vec2")),
        Err(ConversionError::MissingVectorElementType)
    );
    let not_a_type = RustType::Path {
        last: PathSegment { ident: "Vec4".to_string(), first_generic: Some(GenericArg::NotAType) },
    };
    assert_eq!(convert_rust_type_to_wgsl(not_a_type), Err(ConversionError::MissingVectorElementType));
    assert_eq!(
        convert_rust_type_to_wgsl(generic("Vec3", path("f64"))),
        Err(ConversionError::UnsupportedNumericType)
    );
    assert_eq!(convert_rust_type_to_wgsl(generic("Vec", path("f32"))), Err(ConversionError::VecType));
    assert_eq!(ConversionError::VecType.message(), "WGSL does not support Vec types.");
    assert_eq!(
        ConversionError::MissingVectorElementType.message(),
        "Vector types must specify their element type"
    );
}

#[test]
fn arrays_keep_their_length() {
    let ty = RustType::Array { elem: Box::new(generic("Vec2", path("u32"))), len: vec![lit("4", 7)] };
    let w = convert_rust_type_to_wgsl(ty).unwrap();
    assert_eq!(
        w.into_tokens(),
        vec![
            cs_ident("array"),
            cs_punct('<'),
            cs_ident("vec2"),
            cs_punct('<'),
            cs_ident("u32"),
            cs_punct('>'),
            cs_punct(','),
            lit("4", 7),
            cs_punct('>'),
        ]
    );
    let bad = RustType::Array { elem: Box::new(path("u8")), len: vec![lit("4", 0)] };
    assert_eq!(rust_array_to_wgsl_array(bad), Err(ConversionError::UnsupportedNumericType));
    assert_eq!(rust_array_to_wgsl_array(path("f32")), Err(ConversionError::NotAnArrayType));
    assert_eq!(ConversionError::NotAnArrayType.message(), "Expected array type");
}

#[test]
fn slices_tuples_and_others_are_rejected() {
    assert_eq!(convert_rust_type_to_wgsl(RustType::Slice), Err(ConversionError::SliceType));
    assert_eq!(convert_rust_type_to_wgsl(RustType::Tuple), Err(ConversionError::TupleType));
    assert_eq!(convert_rust_type_to_wgsl(RustType::Other), Err(ConversionError::UnsupportedType));
    let nested = RustType::Array { elem: Box::new(RustType::Tuple), len: vec![lit("2", 0)] };
    assert_eq!(convert_rust_type_to_wgsl(nested), Err(ConversionError::TupleType));
    assert_eq!(
        ConversionError::SliceType.message(),
        "WGSL does not support slices or arrays with dynamic length."
    );
    assert_eq!(
        ConversionError::TupleType.message(),
        "WGSL does not support Tuple types, use arrays instead."
    );
    assert_eq!(ConversionError::UnsupportedType.message(), "Unsupported type");
}

#[test]
fn groups_are_transparent() {
    let ty = RustType::Group { elem: Box::new(RustType::Group { elem: Box::new(path("i32")) }) };
    assert_eq!(convert_rust_type_to_wgsl(ty), Ok(WgslType::I32));
}

#[test]
fn path_helpers() {
    assert_eq!(rust_handle_path_type(RustType::Slice), Err(ConversionError::NotAPathType));
    assert_eq!(rust_handle_path_type(path("u32")), Ok(WgslType::U32));
    assert_eq!(
        rust_handle_path_segment(PathSegment { ident: "Mat3".to_string(), first_generic: None }),
        Ok(WgslType::Matrix { size: VectorSize::Three })
    );
    assert_eq!(
        rust_handle_path_segment(PathSegment { ident: "String".to_string(), first_generic: None }),
        Err(ConversionError::UnknownType("String".to_string()))
    );
    assert_eq!(
        ConversionError::NotAPathType.message(),
        "rust_handle_type_path was given a non-Type::Path type"
    );
}

#[test]
fn whole_items() {
    assert_eq!(
        convert_rust_item(RustItem::Type(path("f32"))),
        Ok(WgslItem::Type(WgslType::F32))
    );
    assert_eq!(
        convert_rust_item(RustItem::Struct {
            field_types: vec![path("f32"), generic("Vec3", path("f32"))]
        }),
        Ok(WgslItem::Struct {
            field_types: vec![
                WgslType::F32,
                WgslType::Vector { size: VectorSize::Three, elem: Box::new(WgslType::F32) }
            ]
        })
    );
    assert_eq!(
        convert_rust_item(RustItem::Struct {
            field_types: vec![path("f32"), path("u8"), path("Vec")]
        }),
        Err(ConversionError::UnsupportedNumericType)
    );
    assert_eq!(
        convert_rust_item(RustItem::Function {
            output: Some(path("f32")),
            inputs: vec![FnInput::Receiver, FnInput::Typed(generic("Vec4", path("f32")))],
        }),
        Ok(WgslItem::Function {
            output: Some(WgslType::F32),
            inputs: vec![None, Some(WgslType::Vector { size: VectorSize::Four, elem: Box::new(WgslType::F32) })],
        })
    );
    assert_eq!(
        convert_rust_item(RustItem::Function {
            output: Some(RustType::Tuple),
            inputs: vec![FnInput::Typed(RustType::Slice)],
        }),
        Err(ConversionError::TupleType)
    );
    assert_eq!(
        convert_rust_item(RustItem::Function {
            output: None,
            inputs: vec![FnInput::Typed(path("u32")), FnInput::Typed(RustType::Slice)],
        }),
        Err(ConversionError::SliceType)
    );
    assert_eq!(
        convert_rust_item(RustItem::Function { output: None, inputs: vec![] }),
        Ok(WgslItem::Function { output: None, inputs: vec![] })
    );
    assert_eq!(
        convert_rust_item(RustItem::Unrecognized),
        Ok(WgslItem::Unchanged)
    );
}

fn is_wgsl_syntax(t: &TokenTree) -> bool {
    const NAMES: [&str; 11] =
        ["f32", "i32", "u32", "bool", "vec2", "vec3", "vec4", "mat2x2", "mat3x3", "mat4x4", "array"];
    match t {
        TokenTree::Ident { name, span: TokenSpan::CallSite } => NAMES.contains(&name.as_str()),
        TokenTree::Punct { ch, spacing: Spacing::Alone, span: TokenSpan::CallSite } => {
            *ch == '<' || *ch == ',' || *ch == '>'
        },
        _ => false,
    }
}

#[test]
fn converted_tokens_are_wgsl_syntax_or_array_lengths() {
    // [[Vec4<i32>; 2]; N]
    let n = || TokenTree::Ident { name: "N".to_string(), span: TokenSpan::Source(9) };
    let inner = RustType::Array { elem: Box::new(generic("Vec4", path("i32"))), len: vec![lit("2", 5)] };
    let ty = RustType::Array { elem: Box::new(inner), len: vec![n()] };
    let tokens = convert_rust_type_to_wgsl(ty).unwrap().into_tokens();
    assert_eq!(tokens.len(), 14);
    let lengths = [lit("2", 5), n()];
    for t in &tokens {
        assert!(is_wgsl_syntax(t) || lengths.contains(t), "unexpected token {:?}", t);
    }
    assert!(tokens.contains(&lit("2", 5)));
    assert!(!is_wgsl_syntax(&cs_ident("Vec4")));
}
