//! Properties that relate the printer's functions to one another.

use vstd::prelude::*;
use crate::syntax::{AssignmentOp, BinaryOp, Expr, FunIdentifier, TypeSpecifierNonArray, UnaryOp};
use crate::transpiler::wgsl_text::{
    args_text, assignment_op_text, binary_op_text, converts_to_float, expr_prec, expr_text, is_float_name, is_float_type,
    non_array_text,
};

verus! {

/// Converting with a type that has no float components changes nothing.
pub proof fn lemma_convert_non_float_is_identity(e: Expr, r: Expr)
    requires
        converts_to_float(e, false, r),
    ensures
        r == e,
    decreases e,
{
    match e {
        Expr::Unary(op, x) => {
            if op == UnaryOp::Minus {
                let x2 = *r->Unary_1;
                lemma_convert_non_float_is_identity(*x, x2);
            }
        },
        Expr::Binary(op, l, x) => {
            let x2 = *r->Binary_2;
            lemma_convert_non_float_is_identity(*x, x2);
        },
        Expr::Assignment(v, op, x) => {
            let x2 = *r->Assignment_2;
            lemma_convert_non_float_is_identity(*x, x2);
        },
        _ => {},
    }
}

/// Conversion keeps the kind of every expression that decides parentheses:
/// its precedence, and for a unary expression its operator.
pub proof fn lemma_convert_keeps_shape(e: Expr, as_float: bool, r: Expr)
    requires
        converts_to_float(e, as_float, r),
    ensures
        expr_prec(r) == expr_prec(e),
        (e is Unary) == (r is Unary),
        e is Unary ==> e->Unary_0 == r->Unary_0,
{
}

proof fn lemma_args_converted(args: Seq<Expr>, args2: Seq<Expr>, c: bool)
    requires
        args2.len() == args.len(),
        forall|k: int| 0 <= k < args.len() ==> converts_to_float(#[trigger] args[k], true, args2[k]),
    ensures
        args_text(args2, c) == args_text(args, true),
    decreases args,
{
    if args.len() > 0 {
        let n = args.len() - 1;
        lemma_converted_text(args[n], true, args2[n], c);
        if args.len() > 1 {
            assert(forall|k: int| 0 <= k < args.drop_last().len() ==> #[trigger] args.drop_last()[k] == args[k]);
            assert(forall|k: int| 0 <= k < args2.drop_last().len() ==> #[trigger] args2.drop_last()[k] == args2[k]);
            lemma_args_converted(args.drop_last(), args2.drop_last(), c);
        }
    }
}

/// Printing what `convert_to_float` made of `e` writes what printing `e`
/// itself writes with integer constants read as floats (where the target
/// type has float components): the printer may convert as it prints.
pub proof fn lemma_converted_text(e: Expr, as_float: bool, r: Expr, c: bool)
    requires
        converts_to_float(e, as_float, r),
    ensures
        expr_text(r, c) == expr_text(e, as_float || c),
    decreases e,
{
    if !as_float {
        lemma_convert_non_float_is_identity(e, r);
    } else {
        match e {
            Expr::FunCall(fun, args) => {
                let args2 = r->FunCall_1;
                lemma_args_converted(args@, args2@, c || match fun {
                    FunIdentifier::Identifier(n) => crate::transpiler::wgsl_text::is_float_name(n.0@),
                    _ => false,
                });
                lemma_args_converted(args@, args2@, c);
            },
            Expr::Unary(op, x) => {
                if op == UnaryOp::Minus {
                    let x2 = *r->Unary_1;
                    lemma_converted_text(*x, true, x2, c);
                    lemma_convert_keeps_shape(*x, true, x2);
                }
            },
            Expr::Binary(op, l, x) => {
                let x2 = *r->Binary_2;
                lemma_converted_text(*x, true, x2, c);
                lemma_convert_keeps_shape(*x, true, x2);
            },
            Expr::Assignment(v, op, x) => {
                let x2 = *r->Assignment_2;
                lemma_converted_text(*x, true, x2, c);
                lemma_convert_keeps_shape(*x, true, x2);
            },
            _ => {},
        }
    }
}

/// Converting twice writes the same text as converting once.
pub proof fn lemma_convert_twice(e: Expr, as_float: bool, r: Expr, r2: Expr, c: bool)
    requires
        converts_to_float(e, as_float, r),
        converts_to_float(r, as_float, r2),
    ensures
        expr_text(r2, c) == expr_text(r, c),
{
    lemma_converted_text(e, as_float, r, c);
    lemma_converted_text(r, as_float, r2, c);
    lemma_converted_text(e, as_float, r, as_float || c);
}

/// Whether a GLSL type has 64-bit float components.
pub open spec fn is_double_type(t: TypeSpecifierNonArray) -> bool {
    t is Double || t is DVec2 || t is DVec3 || t is DVec4 || t is DMat2 || t is DMat3 || t is DMat4 || t is DMat23 || t is DMat24 || t is DMat32 || t is DMat34 || t is DMat42 || t is DMat43
}

/// For every type but a struct, a type name and the 64-bit float types, the
/// type has float components exactly when the WGSL name that the printer
/// writes for it is a float type name: `is_float` and `is_float_str` agree
/// on it.
pub proof fn lemma_float_type_agrees_with_its_name(t: TypeSpecifierNonArray)
    requires
        !(t is Struct),
        !(t is TypeName),
        !is_double_type(t),
    ensures
        is_float_type(t) == is_float_name(non_array_text(t)),
{
    reveal_strlit("f32");
    reveal_strlit("vec2<f32>");
    reveal_strlit("vec3<f32>");
    reveal_strlit("vec4<f32>");
    reveal_strlit("mat2x2<f32>");
    reveal_strlit("mat3x3<f32>");
    reveal_strlit("mat4x4<f32>");
    reveal_strlit("mat2x3<f32>");
    reveal_strlit("mat2x4<f32>");
    reveal_strlit("mat3x2<f32>");
    reveal_strlit("mat3x4<f32>");
    reveal_strlit("mat4x2<f32>");
    reveal_strlit("mat4x3<f32>");
    assert("f32"@[0] == 'f');
    assert("vec2<f32>"@[5] == 'f');
    assert("vec3<f32>"@[5] == 'f');
    assert("vec4<f32>"@[5] == 'f');
    assert("mat2x2<f32>"@[0] == 'm');
    assert("mat3x3<f32>"@[0] == 'm');
    assert("mat4x4<f32>"@[0] == 'm');
    assert("mat2x3<f32>"@[0] == 'm');
    assert("mat2x4<f32>"@[0] == 'm');
    assert("mat3x2<f32>"@[0] == 'm');
    assert("mat3x4<f32>"@[0] == 'm');
    assert("mat4x2<f32>"@[0] == 'm');
    assert("mat4x3<f32>"@[0] == 'm');
    match t {
        TypeSpecifierNonArray::Void => {
            reveal_strlit("()");
            assert(non_array_text(t) == "()"@);
        },
        TypeSpecifierNonArray::Bool => {
            reveal_strlit("bool");
            assert(non_array_text(t) == "bool"@);
        },
        TypeSpecifierNonArray::Int => {
            reveal_strlit("i32");
            assert(non_array_text(t) == "i32"@);
            assert(non_array_text(t)[0] == 'i');
        },
        TypeSpecifierNonArray::UInt => {
            reveal_strlit("u32");
            assert(non_array_text(t) == "u32"@);
            assert(non_array_text(t)[0] == 'u');
        },
        TypeSpecifierNonArray::Float => {
            reveal_strlit("f32");
            assert(non_array_text(t) == "f32"@);
        },
        TypeSpecifierNonArray::Vec2 => {
            reveal_strlit("vec2<f32>");
            assert(non_array_text(t) == "vec2<f32>"@);
        },
        TypeSpecifierNonArray::Vec3 => {
            reveal_strlit("vec3<f32>");
            assert(non_array_text(t) == "vec3<f32>"@);
        },
        TypeSpecifierNonArray::Vec4 => {
            reveal_strlit("vec4<f32>");
            assert(non_array_text(t) == "vec4<f32>"@);
        },
        TypeSpecifierNonArray::BVec2 => {
            reveal_strlit("vec2<bool>");
            assert(non_array_text(t) == "vec2<bool>"@);
        },
        TypeSpecifierNonArray::BVec3 => {
            reveal_strlit("vec3<bool>");
            assert(non_array_text(t) == "vec3<bool>"@);
        },
        TypeSpecifierNonArray::BVec4 => {
            reveal_strlit("vec4<bool>");
            assert(non_array_text(t) == "vec4<bool>"@);
        },
        TypeSpecifierNonArray::IVec2 => {
            reveal_strlit("vec2<i32>");
            assert(non_array_text(t) == "vec2<i32>"@);
            assert(non_array_text(t)[5] == 'i');
        },
        TypeSpecifierNonArray::IVec3 => {
            reveal_strlit("vec3<i32>");
            assert(non_array_text(t) == "vec3<i32>"@);
            assert(non_array_text(t)[5] == 'i');
        },
        TypeSpecifierNonArray::IVec4 => {
            reveal_strlit("vec4<i32>");
            assert(non_array_text(t) == "vec4<i32>"@);
            assert(non_array_text(t)[5] == 'i');
        },
        TypeSpecifierNonArray::UVec2 => {
            reveal_strlit("vec2<u32>");
            assert(non_array_text(t) == "vec2<u32>"@);
            assert(non_array_text(t)[5] == 'u');
        },
        TypeSpecifierNonArray::UVec3 => {
            reveal_strlit("vec3<u32>");
            assert(non_array_text(t) == "vec3<u32>"@);
            assert(non_array_text(t)[5] == 'u');
        },
        TypeSpecifierNonArray::UVec4 => {
            reveal_strlit("vec4<u32>");
            assert(non_array_text(t) == "vec4<u32>"@);
            assert(non_array_text(t)[5] == 'u');
        },
        TypeSpecifierNonArray::Mat2 => {
            reveal_strlit("mat2x2<f32>");
            assert(non_array_text(t) == "mat2x2<f32>"@);
        },
        TypeSpecifierNonArray::Mat3 => {
            reveal_strlit("mat3x3<f32>");
            assert(non_array_text(t) == "mat3x3<f32>"@);
        },
        TypeSpecifierNonArray::Mat4 => {
            reveal_strlit("mat4x4<f32>");
            assert(non_array_text(t) == "mat4x4<f32>"@);
        },
        TypeSpecifierNonArray::Mat23 => {
            reveal_strlit("mat2x3<f32>");
            assert(non_array_text(t) == "mat2x3<f32>"@);
        },
        TypeSpecifierNonArray::Mat24 => {
            reveal_strlit("mat2x4<f32>");
            assert(non_array_text(t) == "mat2x4<f32>"@);
        },
        TypeSpecifierNonArray::Mat32 => {
            reveal_strlit("mat3x2<f32>");
            assert(non_array_text(t) == "mat3x2<f32>"@);
        },
        TypeSpecifierNonArray::Mat34 => {
            reveal_strlit("mat3x4<f32>");
            assert(non_array_text(t) == "mat3x4<f32>"@);
        },
        TypeSpecifierNonArray::Mat42 => {
            reveal_strlit("mat4x2<f32>");
            assert(non_array_text(t) == "mat4x2<f32>"@);
        },
        TypeSpecifierNonArray::Mat43 => {
            reveal_strlit("mat4x3<f32>");
            assert(non_array_text(t) == "mat4x3<f32>"@);
        },
        TypeSpecifierNonArray::Sampler1D => {
            reveal_strlit("sampler1D");
            assert(non_array_text(t) == "sampler1D"@);
            assert(non_array_text(t)[5] == 'e');
        },
        TypeSpecifierNonArray::Image1D => {
            reveal_strlit("image1D");
            assert(non_array_text(t) == "image1D"@);
        },
        TypeSpecifierNonArray::Sampler2D => {
            reveal_strlit("sampler2D");
            assert(non_array_text(t) == "sampler2D"@);
            assert(non_array_text(t)[5] == 'e');
        },
        TypeSpecifierNonArray::Image2D => {
            reveal_strlit("image2D");
            assert(non_array_text(t) == "image2D"@);
        },
        TypeSpecifierNonArray::Sampler3D => {
            reveal_strlit("sampler3D");
            assert(non_array_text(t) == "sampler3D"@);
            assert(non_array_text(t)[5] == 'e');
        },
        TypeSpecifierNonArray::Image3D => {
            reveal_strlit("image3D");
            assert(non_array_text(t) == "image3D"@);
        },
        TypeSpecifierNonArray::SamplerCube => {
            reveal_strlit("samplerCube");
            assert(non_array_text(t) == "samplerCube"@);
            assert(non_array_text(t)[0] == 's');
        },
        TypeSpecifierNonArray::ImageCube => {
            reveal_strlit("imageCube");
            assert(non_array_text(t) == "imageCube"@);
            assert(non_array_text(t)[5] == 'C');
        },
        TypeSpecifierNonArray::Sampler2DRect => {
            reveal_strlit("sampler2DRect");
            assert(non_array_text(t) == "sampler2DRect"@);
        },
        TypeSpecifierNonArray::Image2DRect => {
            reveal_strlit("image2DRect");
            assert(non_array_text(t) == "image2DRect"@);
            assert(non_array_text(t)[0] == 'i');
        },
        TypeSpecifierNonArray::Sampler1DArray => {
            reveal_strlit("sampler1DArray");
            assert(non_array_text(t) == "sampler1DArray"@);
        },
        TypeSpecifierNonArray::Image1DArray => {
            reveal_strlit("image1DArray");
            assert(non_array_text(t) == "image1DArray"@);
        },
        TypeSpecifierNonArray::Sampler2DArray => {
            reveal_strlit("sampler2DArray");
            assert(non_array_text(t) == "sampler2DArray"@);
        },
        TypeSpecifierNonArray::Image2DArray => {
            reveal_strlit("image2DArray");
            assert(non_array_text(t) == "image2DArray"@);
        },
        TypeSpecifierNonArray::SamplerBuffer => {
            reveal_strlit("samplerBuffer");
            assert(non_array_text(t) == "samplerBuffer"@);
        },
        TypeSpecifierNonArray::ImageBuffer => {
            reveal_strlit("imageBuffer");
            assert(non_array_text(t) == "imageBuffer"@);
            assert(non_array_text(t)[0] == 'i');
        },
        TypeSpecifierNonArray::Sampler2DMS => {
            reveal_strlit("sampler2DMS");
            assert(non_array_text(t) == "sampler2DMS"@);
            assert(non_array_text(t)[0] == 's');
        },
        TypeSpecifierNonArray::Image2DMS => {
            reveal_strlit("image2DMS");
            assert(non_array_text(t) == "image2DMS"@);
            assert(non_array_text(t)[5] == '2');
        },
        TypeSpecifierNonArray::Sampler2DMSArray => {
            reveal_strlit("sampler2DMSArray");
            assert(non_array_text(t) == "sampler2DMSArray"@);
        },
        TypeSpecifierNonArray::Image2DMSArray => {
            reveal_strlit("image2DMSArray");
            assert(non_array_text(t) == "image2DMSArray"@);
        },
        TypeSpecifierNonArray::SamplerCubeArray => {
            reveal_strlit("samplerCubeArray");
            assert(non_array_text(t) == "samplerCubeArray"@);
        },
        TypeSpecifierNonArray::ImageCubeArray => {
            reveal_strlit("imageCubeArray");
            assert(non_array_text(t) == "imageCubeArray"@);
        },
        TypeSpecifierNonArray::Sampler1DShadow => {
            reveal_strlit("sampler1DShadow");
            assert(non_array_text(t) == "sampler1DShadow"@);
        },
        TypeSpecifierNonArray::Sampler2DShadow => {
            reveal_strlit("sampler2DShadow");
            assert(non_array_text(t) == "sampler2DShadow"@);
        },
        TypeSpecifierNonArray::Sampler2DRectShadow => {
            reveal_strlit("sampler2DRectShadow");
            assert(non_array_text(t) == "sampler2DRectShadow"@);
        },
        TypeSpecifierNonArray::Sampler1DArrayShadow => {
            reveal_strlit("sampler1DArrayShadow");
            assert(non_array_text(t) == "sampler1DArrayShadow"@);
        },
        TypeSpecifierNonArray::Sampler2DArrayShadow => {
            reveal_strlit("sampler2DArrayShadow");
            assert(non_array_text(t) == "sampler2DArrayShadow"@);
        },
        TypeSpecifierNonArray::SamplerCubeShadow => {
            reveal_strlit("samplerCubeShadow");
            assert(non_array_text(t) == "samplerCubeShadow"@);
        },
        TypeSpecifierNonArray::SamplerCubeArrayShadow => {
            reveal_strlit("samplerCubeArrayShadow");
            assert(non_array_text(t) == "samplerCubeArrayShadow"@);
        },
        TypeSpecifierNonArray::ISampler1D => {
            reveal_strlit("isampler1D");
            assert(non_array_text(t) == "isampler1D"@);
        },
        TypeSpecifierNonArray::IImage1D => {
            reveal_strlit("iimage1D");
            assert(non_array_text(t) == "iimage1D"@);
        },
        TypeSpecifierNonArray::ISampler2D => {
            reveal_strlit("isampler2D");
            assert(non_array_text(t) == "isampler2D"@);
        },
        TypeSpecifierNonArray::IImage2D => {
            reveal_strlit("iimage2D");
            assert(non_array_text(t) == "iimage2D"@);
        },
        TypeSpecifierNonArray::ISampler3D => {
            reveal_strlit("isampler3D");
            assert(non_array_text(t) == "isampler3D"@);
        },
        TypeSpecifierNonArray::IImage3D => {
            reveal_strlit("iimage3D");
            assert(non_array_text(t) == "iimage3D"@);
        },
        TypeSpecifierNonArray::ISamplerCube => {
            reveal_strlit("isamplerCube");
            assert(non_array_text(t) == "isamplerCube"@);
        },
        TypeSpecifierNonArray::IImageCube => {
            reveal_strlit("iimageCube");
            assert(non_array_text(t) == "iimageCube"@);
        },
        TypeSpecifierNonArray::ISampler2DRect => {
            reveal_strlit("isampler2DRect");
            assert(non_array_text(t) == "isampler2DRect"@);
        },
        TypeSpecifierNonArray::IImage2DRect => {
            reveal_strlit("iimage2DRect");
            assert(non_array_text(t) == "iimage2DRect"@);
        },
        TypeSpecifierNonArray::ISampler1DArray => {
            reveal_strlit("isampler1DArray");
            assert(non_array_text(t) == "isampler1DArray"@);
        },
        TypeSpecifierNonArray::IImage1DArray => {
            reveal_strlit("iimage1DArray");
            assert(non_array_text(t) == "iimage1DArray"@);
        },
        TypeSpecifierNonArray::ISampler2DArray => {
            reveal_strlit("isampler2DArray");
            assert(non_array_text(t) == "isampler2DArray"@);
        },
        TypeSpecifierNonArray::IImage2DArray => {
            reveal_strlit("iimage2DArray");
            assert(non_array_text(t) == "iimage2DArray"@);
        },
        TypeSpecifierNonArray::ISamplerBuffer => {
            reveal_strlit("isamplerBuffer");
            assert(non_array_text(t) == "isamplerBuffer"@);
        },
        TypeSpecifierNonArray::IImageBuffer => {
            reveal_strlit("iimageBuffer");
            assert(non_array_text(t) == "iimageBuffer"@);
        },
        TypeSpecifierNonArray::ISampler2DMS => {
            reveal_strlit("isampler2MS");
            assert(non_array_text(t) == "isampler2MS"@);
            assert(non_array_text(t)[0] == 'i');
        },
        TypeSpecifierNonArray::IImage2DMS => {
            reveal_strlit("iimage2DMS");
            assert(non_array_text(t) == "iimage2DMS"@);
        },
        TypeSpecifierNonArray::ISampler2DMSArray => {
            reveal_strlit("isampler2DMSArray");
            assert(non_array_text(t) == "isampler2DMSArray"@);
        },
        TypeSpecifierNonArray::IImage2DMSArray => {
            reveal_strlit("iimage2DMSArray");
            assert(non_array_text(t) == "iimage2DMSArray"@);
        },
        TypeSpecifierNonArray::ISamplerCubeArray => {
            reveal_strlit("isamplerCubeArray");
            assert(non_array_text(t) == "isamplerCubeArray"@);
        },
        TypeSpecifierNonArray::IImageCubeArray => {
            reveal_strlit("iimageCubeArray");
            assert(non_array_text(t) == "iimageCubeArray"@);
        },
        TypeSpecifierNonArray::AtomicUInt => {
            reveal_strlit("atomic_uint");
            assert(non_array_text(t) == "atomic_uint"@);
            assert(non_array_text(t)[0] == 'a');
        },
        TypeSpecifierNonArray::USampler1D => {
            reveal_strlit("usampler1D");
            assert(non_array_text(t) == "usampler1D"@);
        },
        TypeSpecifierNonArray::UImage1D => {
            reveal_strlit("uimage1D");
            assert(non_array_text(t) == "uimage1D"@);
        },
        TypeSpecifierNonArray::USampler2D => {
            reveal_strlit("usampler2D");
            assert(non_array_text(t) == "usampler2D"@);
        },
        TypeSpecifierNonArray::UImage2D => {
            reveal_strlit("uimage2D");
            assert(non_array_text(t) == "uimage2D"@);
        },
        TypeSpecifierNonArray::USampler3D => {
            reveal_strlit("usampler3D");
            assert(non_array_text(t) == "usampler3D"@);
        },
        TypeSpecifierNonArray::UImage3D => {
            reveal_strlit("uimage3D");
            assert(non_array_text(t) == "uimage3D"@);
        },
        TypeSpecifierNonArray::USamplerCube => {
            reveal_strlit("usamplerCube");
            assert(non_array_text(t) == "usamplerCube"@);
        },
        TypeSpecifierNonArray::UImageCube => {
            reveal_strlit("uimageCube");
            assert(non_array_text(t) == "uimageCube"@);
        },
        TypeSpecifierNonArray::USampler2DRect => {
            reveal_strlit("usampler2DRect");
            assert(non_array_text(t) == "usampler2DRect"@);
        },
        TypeSpecifierNonArray::UImage2DRect => {
            reveal_strlit("uimage2DRect");
            assert(non_array_text(t) == "uimage2DRect"@);
        },
        TypeSpecifierNonArray::USampler1DArray => {
            reveal_strlit("usampler1DArray");
            assert(non_array_text(t) == "usampler1DArray"@);
        },
        TypeSpecifierNonArray::UImage1DArray => {
            reveal_strlit("uimage1DArray");
            assert(non_array_text(t) == "uimage1DArray"@);
        },
        TypeSpecifierNonArray::USampler2DArray => {
            reveal_strlit("usampler2DArray");
            assert(non_array_text(t) == "usampler2DArray"@);
        },
        TypeSpecifierNonArray::UImage2DArray => {
            reveal_strlit("uimage2DArray");
            assert(non_array_text(t) == "uimage2DArray"@);
        },
        TypeSpecifierNonArray::USamplerBuffer => {
            reveal_strlit("usamplerBuffer");
            assert(non_array_text(t) == "usamplerBuffer"@);
        },
        TypeSpecifierNonArray::UImageBuffer => {
            reveal_strlit("uimageBuffer");
            assert(non_array_text(t) == "uimageBuffer"@);
        },
        TypeSpecifierNonArray::USampler2DMS => {
            reveal_strlit("usampler2DMS");
            assert(non_array_text(t) == "usampler2DMS"@);
        },
        TypeSpecifierNonArray::UImage2DMS => {
            reveal_strlit("uimage2DMS");
            assert(non_array_text(t) == "uimage2DMS"@);
        },
        TypeSpecifierNonArray::USampler2DMSArray => {
            reveal_strlit("usamplerDMSArray");
            assert(non_array_text(t) == "usamplerDMSArray"@);
        },
        TypeSpecifierNonArray::UImage2DMSArray => {
            reveal_strlit("uimage2DMSArray");
            assert(non_array_text(t) == "uimage2DMSArray"@);
        },
        TypeSpecifierNonArray::USamplerCubeArray => {
            reveal_strlit("usamplerCubeArray");
            assert(non_array_text(t) == "usamplerCubeArray"@);
        },
        TypeSpecifierNonArray::UImageCubeArray => {
            reveal_strlit("uimageCubeArray");
            assert(non_array_text(t) == "uimageCubeArray"@);
        },
        _ => {},
    }
}

/// The binary operator that an operator token of WGSL source denotes, the
/// token written with a space on each side: ` <= ` is a less-or-equal
/// comparison, ` << ` a left shift, and so on.
pub open spec fn wgsl_binary_op(t: Seq<char>) -> Option<BinaryOp> {
    if t.len() == 3 && t[0] == ' ' && t[2] == ' ' {
        let c = t[1];
        if c == '|' {
            Some(BinaryOp::BitOr)
        } else if c == '^' {
            Some(BinaryOp::BitXor)
        } else if c == '&' {
            Some(BinaryOp::BitAnd)
        } else if c == '<' {
            Some(BinaryOp::LT)
        } else if c == '>' {
            Some(BinaryOp::GT)
        } else if c == '+' {
            Some(BinaryOp::Add)
        } else if c == '-' {
            Some(BinaryOp::Sub)
        } else if c == '*' {
            Some(BinaryOp::Mult)
        } else if c == '/' {
            Some(BinaryOp::Div)
        } else if c == '%' {
            Some(BinaryOp::Mod)
        } else {
            None
        }
    } else if t.len() == 4 && t[0] == ' ' && t[3] == ' ' {
        let (c, d) = (t[1], t[2]);
        if c == '|' && d == '|' {
            Some(BinaryOp::Or)
        } else if c == '^' && d == '^' {
            Some(BinaryOp::Xor)
        } else if c == '&' && d == '&' {
            Some(BinaryOp::And)
        } else if c == '=' && d == '=' {
            Some(BinaryOp::Equal)
        } else if c == '!' && d == '=' {
            Some(BinaryOp::NonEqual)
        } else if c == '<' && d == '=' {
            Some(BinaryOp::LTE)
        } else if c == '>' && d == '=' {
            Some(BinaryOp::GTE)
        } else if c == '<' && d == '<' {
            Some(BinaryOp::LShift)
        } else if c == '>' && d == '>' {
            Some(BinaryOp::RShift)
        } else {
            None
        }
    } else {
        None
    }
}

/// The printer writes every binary operator as the WGSL token for that same
/// operator: reading the printed token back gives the operator again.
pub proof fn lemma_binary_operator_reads_back(op: BinaryOp)
    ensures
        wgsl_binary_op(binary_op_text(op)) == Some(op),
{
    match op {
        BinaryOp::Or => {
            reveal_strlit(" || ");
            assert(binary_op_text(op) == " || "@);
        },
        BinaryOp::Xor => {
            reveal_strlit(" ^^ ");
            assert(binary_op_text(op) == " ^^ "@);
        },
        BinaryOp::And => {
            reveal_strlit(" && ");
            assert(binary_op_text(op) == " && "@);
        },
        BinaryOp::BitOr => {
            reveal_strlit(" | ");
            assert(binary_op_text(op) == " | "@);
        },
        BinaryOp::BitXor => {
            reveal_strlit(" ^ ");
            assert(binary_op_text(op) == " ^ "@);
        },
        BinaryOp::BitAnd => {
            reveal_strlit(" & ");
            assert(binary_op_text(op) == " & "@);
        },
        BinaryOp::Equal => {
            reveal_strlit(" == ");
            assert(binary_op_text(op) == " == "@);
        },
        BinaryOp::NonEqual => {
            reveal_strlit(" != ");
            assert(binary_op_text(op) == " != "@);
        },
        BinaryOp::LT => {
            reveal_strlit(" < ");
            assert(binary_op_text(op) == " < "@);
        },
        BinaryOp::GT => {
            reveal_strlit(" > ");
            assert(binary_op_text(op) == " > "@);
        },
        BinaryOp::LTE => {
            reveal_strlit(" <= ");
            assert(binary_op_text(op) == " <= "@);
        },
        BinaryOp::GTE => {
            reveal_strlit(" >= ");
            assert(binary_op_text(op) == " >= "@);
        },
        BinaryOp::LShift => {
            reveal_strlit(" << ");
            assert(binary_op_text(op) == " << "@);
        },
        BinaryOp::RShift => {
            reveal_strlit(" >> ");
            assert(binary_op_text(op) == " >> "@);
        },
        BinaryOp::Add => {
            reveal_strlit(" + ");
            assert(binary_op_text(op) == " + "@);
        },
        BinaryOp::Sub => {
            reveal_strlit(" - ");
            assert(binary_op_text(op) == " - "@);
        },
        BinaryOp::Mult => {
            reveal_strlit(" * ");
            assert(binary_op_text(op) == " * "@);
        },
        BinaryOp::Div => {
            reveal_strlit(" / ");
            assert(binary_op_text(op) == " / "@);
        },
        BinaryOp::Mod => {
            reveal_strlit(" % ");
            assert(binary_op_text(op) == " % "@);
        },
    }
}

/// The assignment operator that the operator part of a compound assignment
/// stands for: `=` is a plain assignment, `*` multiplies, `<<` shifts left,
/// and so on.
pub open spec fn assignment_op_of(t: Seq<char>) -> Option<AssignmentOp> {
    if t.len() == 1 {
        let c = t[0];
        if c == '=' {
            Some(AssignmentOp::Equal)
        } else if c == '*' {
            Some(AssignmentOp::Mult)
        } else if c == '/' {
            Some(AssignmentOp::Div)
        } else if c == '%' {
            Some(AssignmentOp::Mod)
        } else if c == '+' {
            Some(AssignmentOp::Add)
        } else if c == '-' {
            Some(AssignmentOp::Sub)
        } else if c == '&' {
            Some(AssignmentOp::And)
        } else if c == '^' {
            Some(AssignmentOp::Xor)
        } else if c == '|' {
            Some(AssignmentOp::Or)
        } else {
            None
        }
    } else if t.len() == 2 && t[0] == t[1] {
        if t[0] == '<' {
            Some(AssignmentOp::LShift)
        } else if t[0] == '>' {
            Some(AssignmentOp::RShift)
        } else {
            None
        }
    } else {
        None
    }
}

/// The printer writes every assignment operator as the symbol of that same
/// operation: reading the printed symbol back gives the operator again.
pub proof fn lemma_assignment_operator_reads_back(op: AssignmentOp)
    ensures
        assignment_op_of(assignment_op_text(op)) == Some(op),
{
    match op {
        AssignmentOp::Equal => {
            reveal_strlit("=");
            assert(assignment_op_text(op) == "="@);
        },
        AssignmentOp::Mult => {
            reveal_strlit("*");
            assert(assignment_op_text(op) == "*"@);
        },
        AssignmentOp::Div => {
            reveal_strlit("/");
            assert(assignment_op_text(op) == "/"@);
        },
        AssignmentOp::Mod => {
            reveal_strlit("%");
            assert(assignment_op_text(op) == "%"@);
        },
        AssignmentOp::Add => {
            reveal_strlit("+");
            assert(assignment_op_text(op) == "+"@);
        },
        AssignmentOp::Sub => {
            reveal_strlit("-");
            assert(assignment_op_text(op) == "-"@);
        },
        AssignmentOp::LShift => {
            reveal_strlit("<<");
            assert(assignment_op_text(op) == "<<"@);
        },
        AssignmentOp::RShift => {
            reveal_strlit(">>");
            assert(assignment_op_text(op) == ">>"@);
        },
        AssignmentOp::And => {
            reveal_strlit("&");
            assert(assignment_op_text(op) == "&"@);
        },
        AssignmentOp::Xor => {
            reveal_strlit("^");
            assert(assignment_op_text(op) == "^"@);
        },
        AssignmentOp::Or => {
            reveal_strlit("|");
            assert(assignment_op_text(op) == "|"@);
        },
    }
}

} // verus!
