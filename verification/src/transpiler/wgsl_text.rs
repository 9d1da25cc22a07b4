//! What the printer writes for each node of the syntax tree, as spec
//! functions over the tree.

use vstd::prelude::*;
use crate::syntax::{
    ExternalDeclaration, Preprocessor, PreprocessorDefine, PreprocessorExtension,
    PreprocessorExtensionBehavior, PreprocessorExtensionName, PreprocessorLine,
    PreprocessorVersion, PreprocessorVersionProfile, TranslationUnit,
    Path,
    Block, CaseLabel, CompoundStatement, Condition, Declaration, ForInitStatement,
    ForRestStatement, FullySpecifiedType, FunctionDefinition, FunctionParameterDeclaration,
    FunctionParameterDeclarator, FunctionPrototype, InitDeclaratorList, Initializer,
    IterationStatement, JumpStatement, SelectionRestStatement, SelectionStatement,
    SimpleStatement, SingleDeclaration, SingleDeclarationNoType, Statement, SwitchStatement,
    ArraySpecifier, ArraySpecifierDimension, ArrayedIdentifier, AssignmentOp, BinaryOp, Expr,
    FunIdentifier, Identifier, InterpolationQualifier, LayoutQualifier, LayoutQualifierSpec,
    PrecisionQualifier, StorageQualifier, StructFieldSpecifier, StructSpecifier, TypeName,
    TypeQualifier, TypeQualifierSpec, TypeSpecifier, TypeSpecifierNonArray, UnaryOp,
};
use crate::text::{int_text, nat_digits};

verus! {

/// `n` tab characters; nothing when `n` is not positive.
pub open spec fn indent_text(n: int) -> Seq<char> {
    Seq::new(if n > 0 { n as nat } else { 0 }, |_k: int| '\t')
}

/// The text in parentheses.
pub open spec fn paren(t: Seq<char>) -> Seq<char> {
    "("@ + t + ")"@
}

/// The WGSL name of a GLSL built-in function name.
pub open spec fn builtin_name(s: Seq<char>) -> Seq<char> {
    if s == "smoothstep"@ { "smoothStep"@ } else { s }
}

/// The text of an identifier where the printer translates built-in names.
pub open spec fn identifier_text(i: Identifier) -> Seq<char> {
    builtin_name(i.0@)
}

/// The WGSL type names whose components are 32-bit floats.
pub open spec fn is_float_name(s: Seq<char>) -> bool {
    ||| s == "f32"@
    ||| s == "vec2<f32>"@
    ||| s == "vec3<f32>"@
    ||| s == "vec4<f32>"@
    ||| s == "mat2x2<f32>"@
    ||| s == "mat3x3<f32>"@
    ||| s == "mat4x4<f32>"@
    ||| s == "mat2x3<f32>"@
    ||| s == "mat2x4<f32>"@
    ||| s == "mat3x2<f32>"@
    ||| s == "mat3x4<f32>"@
    ||| s == "mat4x2<f32>"@
    ||| s == "mat4x3<f32>"@
}

/// The text of an integer constant once it is read as a float.
pub open spec fn int_as_float_text(x: int) -> Seq<char> {
    int_text(x) + "."@
}

/// Whether `p` lists the elements of `s` at `k` pairwise distinct positions,
/// that is, whether `p` is one of the `k`-permutations of `s`.
pub open spec fn is_k_permutation(s: Seq<char>, k: nat, p: Seq<char>) -> bool {
    exists|idx: Seq<int>|
        #![trigger idx.len()]
        idx.len() == k && p.len() == k
        && (forall|j: int| 0 <= j < k ==> 0 <= #[trigger] idx[j] < s.len())
        && (forall|j1: int, j2: int| 0 <= j1 < j2 < k ==> idx[j1] != idx[j2])
        && (forall|j: int| 0 <= j < k ==> #[trigger] p[j] == s[idx[j]])
}

/// Whether `s` selects `2`, `3` or `4` distinct components of a vector by
/// their `xyzw` or `rgba` names.
pub open spec fn is_swizzle_text(s: Seq<char>) -> bool {
    ||| is_k_permutation("xyzw"@, 2, s)
    ||| is_k_permutation("xyzw"@, 3, s)
    ||| is_k_permutation("xyzw"@, 4, s)
    ||| is_k_permutation("rgba"@, 2, s)
    ||| is_k_permutation("rgba"@, 3, s)
    ||| is_k_permutation("rgba"@, 4, s)
}

/// The binding strength of an expression; `0` for atoms, larger numbers
/// bind more loosely.
pub open spec fn expr_prec(e: Expr) -> int {
    match e {
        Expr::Variable(_) | Expr::IntConst(_) | Expr::UIntConst(_) | Expr::BoolConst(_)
        | Expr::FloatConst(_) | Expr::DoubleConst(_) => 0,
        Expr::Unary(_, _) => 3,
        Expr::Binary(op, _, _) => binary_prec(op),
        Expr::Ternary(_, _, _) | Expr::TernaryWGSL(_, _, _, _) => 15,
        Expr::Assignment(_, _, _) => 16,
        Expr::Bracket(_, _) | Expr::FunCall(_, _) | Expr::Dot(_, _) | Expr::PostInc(_)
        | Expr::PostDec(_) => 2,
        Expr::Comma(_, _) => 17,
    }
}

/// The binding strength of a binary operator.
pub open spec fn binary_prec(op: BinaryOp) -> int {
    match op {
        BinaryOp::Mult | BinaryOp::Div | BinaryOp::Mod => 4,
        BinaryOp::Add | BinaryOp::Sub => 5,
        BinaryOp::LShift | BinaryOp::RShift => 6,
        BinaryOp::LT | BinaryOp::GT | BinaryOp::LTE | BinaryOp::GTE => 7,
        BinaryOp::Equal | BinaryOp::NonEqual => 8,
        BinaryOp::BitAnd => 9,
        BinaryOp::BitXor => 10,
        BinaryOp::BitOr => 11,
        BinaryOp::And => 12,
        BinaryOp::Xor => 13,
        BinaryOp::Or => 14,
    }
}

/// What a unary operator writes before its operand; `operand` is the
/// operand's text, which the increment and decrement operators repeat.
pub open spec fn unary_op_text(op: UnaryOp, operand: Seq<char>) -> Seq<char> {
    match op {
        UnaryOp::Inc => " = "@ + operand + " + 1"@,
        UnaryOp::Dec => " = "@ + operand + " - 1"@,
        UnaryOp::Add => "+"@,
        UnaryOp::Minus => "-"@,
        UnaryOp::Not => "!"@,
        UnaryOp::Complement => "~"@,
    }
}

/// The text of a binary operator.
pub open spec fn binary_op_text(op: BinaryOp) -> Seq<char> {
    match op {
        BinaryOp::Or => " || "@,
        BinaryOp::Xor => " ^^ "@,
        BinaryOp::And => " && "@,
        BinaryOp::BitOr => " | "@,
        BinaryOp::BitXor => " ^ "@,
        BinaryOp::BitAnd => " & "@,
        BinaryOp::Equal => " == "@,
        BinaryOp::NonEqual => " != "@,
        BinaryOp::LT => " < "@,
        BinaryOp::GT => " > "@,
        BinaryOp::LTE => " <= "@,
        BinaryOp::GTE => " >= "@,
        BinaryOp::LShift => " << "@,
        BinaryOp::RShift => " >> "@,
        BinaryOp::Add => " + "@,
        BinaryOp::Sub => " - "@,
        BinaryOp::Mult => " * "@,
        BinaryOp::Div => " / "@,
        BinaryOp::Mod => " % "@,
    }
}

/// The text of an assignment operator.
pub open spec fn assignment_op_text(op: AssignmentOp) -> Seq<char> {
    match op {
        AssignmentOp::Equal => "="@,
        AssignmentOp::Mult => "*"@,
        AssignmentOp::Div => "/"@,
        AssignmentOp::Mod => "%"@,
        AssignmentOp::Add => "+"@,
        AssignmentOp::Sub => "-"@,
        AssignmentOp::LShift => "<<"@,
        AssignmentOp::RShift => ">>"@,
        AssignmentOp::And => "&"@,
        AssignmentOp::Xor => "^"@,
        AssignmentOp::Or => "|"@,
    }
}

/// The text of an operand that is put in parentheses unless `bare` holds.
pub open spec fn operand(bare: bool, t: Seq<char>) -> Seq<char> {
    if bare { t } else { paren(t) }
}

/// A ternary expression as a WGSL `if`; `target` is the variable that each
/// branch assigns, where there is one.
pub open spec fn ternary_text(
    target: Option<Seq<char>>,
    cond: Seq<char>,
    cond_prec: int,
    then_t: Seq<char>,
    else_t: Seq<char>,
    else_prec: int,
) -> Seq<char> {
    let assign = match target {
        Some(n) => n + " = "@,
        None => Seq::<char>::empty(),
    };
    "if ("@ + operand(cond_prec < 15, cond) + ") { "@ + assign + then_t + "; } else { "@ + assign
        + operand(else_prec <= 15, else_t) + "; }"@
}

/// The component name of the `k`-th component of a vector: `x`, `y`, `z`,
/// then `w`.
pub open spec fn position_letter(k: int) -> char {
    if k <= 0 {
        'x'
    } else if k == 1 {
        'y'
    } else if k == 2 {
        'z'
    } else {
        'w'
    }
}

/// The per-component assignments that follow an assignment to a swizzle:
/// one for each character of `rest`, which reads the fresh variable back by
/// the position of that character in the swizzle.
pub open spec fn swizzle_lines(var: Seq<char>, swizzle: Seq<char>, rest: Seq<char>) -> Seq<char>
    decreases rest.len(),
{
    if rest.len() == 0 {
        Seq::empty()
    } else {
        swizzle_lines(var, swizzle, rest.drop_last()) + ";\n"@ + indent_text(1) + var + "."@
            + seq![rest.last()] + " = "@ + var + swizzle + "."@ + seq![
            position_letter(rest.len() - 1),
        ]
    }
}

/// Whether an assignment target is a swizzle of a vector: `v.xy` and the like.
pub open spec fn is_swizzle_target(target: Expr) -> bool {
    match target {
        Expr::Dot(_, right) => is_swizzle_text(right.0@),
        _ => false,
    }
}

/// The component names of a swizzle target.
pub open spec fn swizzle_name(target: Expr) -> Seq<char> {
    match target {
        Expr::Dot(_, right) => right.0@,
        _ => Seq::empty(),
    }
}

/// The variable a swizzle target selects from; `variable_name` where it is
/// not a plain variable.
pub open spec fn swizzle_var(target: Expr) -> Seq<char> {
    match target {
        Expr::Dot(left, _) => match *left {
            Expr::Variable(i) => i.0@,
            _ => "variable_name"@,
        },
        _ => "variable_name"@,
    }
}

/// What an assignment writes before ` `: for a swizzle target, a copy of the
/// selected components into a fresh variable; else the target itself.
pub open spec fn assignment_head(target: Expr, target_t: Seq<char>) -> Seq<char> {
    let var = swizzle_var(target);
    let right = swizzle_name(target);
    if is_swizzle_target(target) {
        "var "@ + var + right + " = "@ + var + "."@ + right + ";\n"@ + indent_text(1) + var + right
    } else {
        operand(expr_prec(target) < 16, target_t)
    }
}

/// The operator part of an assignment: `= ` or, for a compound operator,
/// `= target op (`.
pub open spec fn assignment_op_part(op: AssignmentOp, target_t: Seq<char>) -> Seq<char> {
    if op != AssignmentOp::Equal {
        "= "@ + target_t + " "@ + assignment_op_text(op) + " "@ + "("@
    } else {
        "= "@
    }
}

/// An assignment: `target` is the assigned expression, `target_t` its text,
/// `value_t` the text of the assigned value and `value_prec` its precedence.
pub open spec fn assignment_text(
    target: Expr,
    target_t: Seq<char>,
    op: AssignmentOp,
    value_t: Seq<char>,
    value_prec: int,
) -> Seq<char> {
    assignment_head(target, target_t) + " "@ + assignment_op_part(op, target_t) + operand(
        value_prec <= 16,
        value_t,
    ) + (if op != AssignmentOp::Equal {
        ")"@
    } else {
        Seq::empty()
    }) + (if is_swizzle_target(target) {
        swizzle_lines(swizzle_var(target), swizzle_name(target), swizzle_name(target))
    } else {
        Seq::empty()
    })
}

/// The text of an expression. When `as_float` holds, the expression is
/// printed as `convert_to_float` with a float type leaves it: integer
/// constants become float constants, in function calls, under a unary minus
/// and on the right of binary operators and assignments.
pub open spec fn expr_text(e: Expr, as_float: bool) -> Seq<char>
    decreases e,
{
    match e {
        Expr::Variable(i) => identifier_text(i),
        Expr::IntConst(x) => if as_float { int_as_float_text(x as int) } else { int_text(x as int) },
        Expr::UIntConst(x) => if as_float {
            int_as_float_text(x as int)
        } else {
            int_text(x as int) + "u"@
        },
        Expr::BoolConst(b) => if b { "true"@ } else { "false"@ },
        Expr::FloatConst(s) => s@,
        Expr::DoubleConst(s) => s@,
        Expr::Unary(op, x) => {
            let inner = expr_text(*x, as_float && op == UnaryOp::Minus);
            let pre = unary_op_text(op, expr_text(*x, false));
            let doubled = match *x {
                Expr::Unary(eop, _) => eop == op && (eop == UnaryOp::Add || eop == UnaryOp::Minus),
                _ => false,
            };
            if expr_prec(*x) > 3 || doubled {
                pre + paren(inner)
            } else {
                pre + inner
            }
        },
        Expr::Binary(op, l, r) => operand(expr_prec(*l) <= binary_prec(op), expr_text(*l, false))
            + binary_op_text(op) + operand(expr_prec(*r) < binary_prec(op), expr_text(*r, as_float)),
        Expr::Ternary(c, s, x) => ternary_text(
            None,
            expr_text(*c, false),
            expr_prec(*c),
            expr_text(*s, false),
            expr_text(*x, false),
            expr_prec(*x),
        ),
        Expr::TernaryWGSL(i, c, s, x) => ternary_text(
            Some(i.0@),
            expr_text(*c, false),
            expr_prec(*c),
            expr_text(*s, false),
            expr_text(*x, false),
            expr_prec(*x),
        ),
        Expr::Assignment(v, op, x) => assignment_text(
            *v,
            expr_text(*v, false),
            op,
            expr_text(*x, as_float),
            expr_prec(*x),
        ),
        Expr::Bracket(x, a) => operand(expr_prec(*x) <= 2, expr_text(*x, false)) + dims_text(
            a.dimensions@,
        ),
        Expr::FunCall(fun, args) => match fun {
            FunIdentifier::Identifier(n) => identifier_text(n) + "("@ + args_text(
                args@,
                as_float || is_float_name(n.0@),
            ) + ")"@,
            FunIdentifier::Expr(x) => expr_text(*x, false) + "("@ + args_text(args@, as_float)
                + ")"@,
        },
        Expr::Dot(x, i) => operand(expr_prec(*x) <= 2, expr_text(*x, false)) + "."@
            + identifier_text(i),
        Expr::PostInc(x) => operand(expr_prec(*x) < 2, expr_text(*x, false)) + " = "@
            + expr_text(*x, false) + " + 1"@,
        Expr::PostDec(x) => operand(expr_prec(*x) < 2, expr_text(*x, false)) + " = "@
            + expr_text(*x, false) + " - 1"@,
        Expr::Comma(a, b) => operand(expr_prec(*a) <= 17, expr_text(*a, false)) + ", "@ + operand(
            expr_prec(*b) < 17,
            expr_text(*b, false),
        ),
    }
}

/// The arguments of a call, separated by `, `.
pub open spec fn args_text(s: Seq<Expr>, as_float: bool) -> Seq<char>
    decreases s,
{
    if s.len() == 0 {
        Seq::empty()
    } else if s.len() == 1 {
        expr_text(s[0], as_float)
    } else {
        args_text(s.drop_last(), as_float) + ", "@ + expr_text(s.last(), as_float)
    }
}

/// The WGSL vector of floats with `n` components: `vec2<f32>`,
/// `vec3<f32>` or, for any other `n`, `vec4<f32>`.
pub open spec fn float_vector_text(n: nat) -> Seq<char> {
    if n == 2 {
        "vec2<f32>"@
    } else if n == 3 {
        "vec3<f32>"@
    } else {
        "vec4<f32>"@
    }
}

/// The text of an expression that is the value of a vector of `n` floats:
/// printed as `expr_text` with float conversion, except that an integer
/// constant passed to a function that is not a float type's constructor is
/// written as a vector with that value in every component.
pub open spec fn splat_expr_text(e: Expr, n: nat) -> Seq<char>
    decreases e,
{
    match e {
        Expr::Unary(op, x) => {
            let inner = if op == UnaryOp::Minus {
                splat_expr_text(*x, n)
            } else {
                expr_text(*x, false)
            };
            let pre = unary_op_text(op, expr_text(*x, false));
            let doubled = match *x {
                Expr::Unary(eop, _) => eop == op && (eop == UnaryOp::Add || eop == UnaryOp::Minus),
                _ => false,
            };
            if expr_prec(*x) > 3 || doubled {
                pre + paren(inner)
            } else {
                pre + inner
            }
        },
        Expr::Binary(op, l, r) => operand(expr_prec(*l) <= binary_prec(op), expr_text(*l, false))
            + binary_op_text(op) + operand(expr_prec(*r) < binary_prec(op), splat_expr_text(*r, n)),
        Expr::Assignment(v, op, x) => assignment_text(
            *v,
            expr_text(*v, false),
            op,
            splat_expr_text(*x, n),
            expr_prec(*x),
        ),
        Expr::FunCall(fun, args) => match fun {
            FunIdentifier::Identifier(id) => if is_float_name(id.0@) {
                expr_text(e, true)
            } else {
                identifier_text(id) + "("@ + splat_args_text(args@, n) + ")"@
            },
            FunIdentifier::Expr(x) => expr_text(*x, false) + "("@ + splat_args_text(args@, n)
                + ")"@,
        },
        _ => expr_text(e, true),
    }
}

/// The arguments of a call in the value of a vector of `n` floats,
/// separated by `, `: integer constants as vectors of floats, the others as
/// `splat_expr_text`.
pub open spec fn splat_args_text(s: Seq<Expr>, n: nat) -> Seq<char>
    decreases s,
{
    if s.len() == 0 {
        Seq::empty()
    } else {
        let last = match s.last() {
            Expr::IntConst(x) => float_vector_text(n) + paren(int_as_float_text(x as int)),
            Expr::UIntConst(x) => float_vector_text(n) + paren(int_as_float_text(x as int)),
            _ => splat_expr_text(s.last(), n),
        };
        if s.len() == 1 {
            last
        } else {
            splat_args_text(s.drop_last(), n) + ", "@ + last
        }
    }
}

/// An expression printed in mode `m`: as it is (`0`), with integer
/// constants read as floats (`1`), or as the value of a vector of `m`
/// floats (`2` and more).
pub open spec fn mode_text(e: Expr, m: nat) -> Seq<char> {
    if m >= 2 {
        splat_expr_text(e, m)
    } else {
        expr_text(e, m == 1)
    }
}

/// Call arguments printed in mode `m` (see `mode_text`).
pub open spec fn mode_args_text(s: Seq<Expr>, m: nat) -> Seq<char> {
    if m >= 2 {
        splat_args_text(s, m)
    } else {
        args_text(s, m == 1)
    }
}

/// The mode in which the value of a variable of type `t` is printed: as a
/// vector value for the float vectors, with floats for the other float
/// types, as it is for the rest.
pub open spec fn value_mode(t: TypeSpecifierNonArray) -> nat {
    match t {
        TypeSpecifierNonArray::Vec2 => 2,
        TypeSpecifierNonArray::Vec3 => 3,
        TypeSpecifierNonArray::Vec4 => 4,
        _ => if is_float_type(t) { 1 } else { 0 },
    }
}

/// An indexing expression written as WGSL array types: one `array<...>`
/// per dimension, with `base` the text of the indexed expression.
pub open spec fn dims_value_text(dims: Seq<ArraySpecifierDimension>, base: Seq<char>) -> Seq<
    char,
>
    decreases dims,
{
    if dims.len() == 0 {
        Seq::empty()
    } else {
        dims_value_text(dims.drop_last(), base) + match dims.last() {
            ArraySpecifierDimension::Unsized => "array<>"@,
            ArraySpecifierDimension::ExplicitlySized(e) => "array<"@ + base + ","@ + expr_text(
                *e,
                false,
            ) + ">"@,
        }
    }
}

/// Whether a GLSL type has 32- or 64-bit float components.
pub open spec fn is_float_type(t: TypeSpecifierNonArray) -> bool {
    ||| t is Float
        ||| t is Double
        ||| t is Vec2
        ||| t is Vec3
        ||| t is Vec4
        ||| t is DVec2
        ||| t is DVec3
        ||| t is DVec4
        ||| t is Mat2
        ||| t is Mat3
        ||| t is Mat4
        ||| t is Mat23
        ||| t is Mat24
        ||| t is Mat32
        ||| t is Mat34
        ||| t is Mat42
        ||| t is Mat43
        ||| t is DMat2
        ||| t is DMat3
        ||| t is DMat4
        ||| t is DMat23
        ||| t is DMat24
        ||| t is DMat32
        ||| t is DMat34
        ||| t is DMat42
        ||| t is DMat43
}

/// The WGSL text of a type without array dimensions.
pub open spec fn non_array_text(t: TypeSpecifierNonArray) -> Seq<char>
    decreases t,
{
    match t {
        TypeSpecifierNonArray::Void => "()"@,
        TypeSpecifierNonArray::Bool => "bool"@,
        TypeSpecifierNonArray::Int => "i32"@,
        TypeSpecifierNonArray::UInt => "u32"@,
        TypeSpecifierNonArray::Float => "f32"@,
        TypeSpecifierNonArray::Double => "double"@,
        TypeSpecifierNonArray::Vec2 => "vec2<f32>"@,
        TypeSpecifierNonArray::Vec3 => "vec3<f32>"@,
        TypeSpecifierNonArray::Vec4 => "vec4<f32>"@,
        TypeSpecifierNonArray::DVec2 => "no double in wgsl"@,
        TypeSpecifierNonArray::DVec3 => "no double in wgsl"@,
        TypeSpecifierNonArray::DVec4 => "no double in wgsl"@,
        TypeSpecifierNonArray::BVec2 => "vec2<bool>"@,
        TypeSpecifierNonArray::BVec3 => "vec3<bool>"@,
        TypeSpecifierNonArray::BVec4 => "vec4<bool>"@,
        TypeSpecifierNonArray::IVec2 => "vec2<i32>"@,
        TypeSpecifierNonArray::IVec3 => "vec3<i32>"@,
        TypeSpecifierNonArray::IVec4 => "vec4<i32>"@,
        TypeSpecifierNonArray::UVec2 => "vec2<u32>"@,
        TypeSpecifierNonArray::UVec3 => "vec3<u32>"@,
        TypeSpecifierNonArray::UVec4 => "vec4<u32>"@,
        TypeSpecifierNonArray::Mat2 => "mat2x2<f32>"@,
        TypeSpecifierNonArray::Mat3 => "mat3x3<f32>"@,
        TypeSpecifierNonArray::Mat4 => "mat4x4<f32>"@,
        TypeSpecifierNonArray::Mat23 => "mat2x3<f32>"@,
        TypeSpecifierNonArray::Mat24 => "mat2x4<f32>"@,
        TypeSpecifierNonArray::Mat32 => "mat3x2<f32>"@,
        TypeSpecifierNonArray::Mat34 => "mat3x4<f32>"@,
        TypeSpecifierNonArray::Mat42 => "mat4x2<f32>"@,
        TypeSpecifierNonArray::Mat43 => "mat4x3<f32>"@,
        TypeSpecifierNonArray::DMat2 => "dmat2"@,
        TypeSpecifierNonArray::DMat3 => "dmat3"@,
        TypeSpecifierNonArray::DMat4 => "dmat4"@,
        TypeSpecifierNonArray::DMat23 => "dmat2x3"@,
        TypeSpecifierNonArray::DMat24 => "dmat2x4"@,
        TypeSpecifierNonArray::DMat32 => "dmat3x2"@,
        TypeSpecifierNonArray::DMat34 => "dmat3x4"@,
        TypeSpecifierNonArray::DMat42 => "dmat4x2"@,
        TypeSpecifierNonArray::DMat43 => "dmat4x3"@,
        TypeSpecifierNonArray::Sampler1D => "sampler1D"@,
        TypeSpecifierNonArray::Image1D => "image1D"@,
        TypeSpecifierNonArray::Sampler2D => "sampler2D"@,
        TypeSpecifierNonArray::Image2D => "image2D"@,
        TypeSpecifierNonArray::Sampler3D => "sampler3D"@,
        TypeSpecifierNonArray::Image3D => "image3D"@,
        TypeSpecifierNonArray::SamplerCube => "samplerCube"@,
        TypeSpecifierNonArray::ImageCube => "imageCube"@,
        TypeSpecifierNonArray::Sampler2DRect => "sampler2DRect"@,
        TypeSpecifierNonArray::Image2DRect => "image2DRect"@,
        TypeSpecifierNonArray::Sampler1DArray => "sampler1DArray"@,
        TypeSpecifierNonArray::Image1DArray => "image1DArray"@,
        TypeSpecifierNonArray::Sampler2DArray => "sampler2DArray"@,
        TypeSpecifierNonArray::Image2DArray => "image2DArray"@,
        TypeSpecifierNonArray::SamplerBuffer => "samplerBuffer"@,
        TypeSpecifierNonArray::ImageBuffer => "imageBuffer"@,
        TypeSpecifierNonArray::Sampler2DMS => "sampler2DMS"@,
        TypeSpecifierNonArray::Image2DMS => "image2DMS"@,
        TypeSpecifierNonArray::Sampler2DMSArray => "sampler2DMSArray"@,
        TypeSpecifierNonArray::Image2DMSArray => "image2DMSArray"@,
        TypeSpecifierNonArray::SamplerCubeArray => "samplerCubeArray"@,
        TypeSpecifierNonArray::ImageCubeArray => "imageCubeArray"@,
        TypeSpecifierNonArray::Sampler1DShadow => "sampler1DShadow"@,
        TypeSpecifierNonArray::Sampler2DShadow => "sampler2DShadow"@,
        TypeSpecifierNonArray::Sampler2DRectShadow => "sampler2DRectShadow"@,
        TypeSpecifierNonArray::Sampler1DArrayShadow => "sampler1DArrayShadow"@,
        TypeSpecifierNonArray::Sampler2DArrayShadow => "sampler2DArrayShadow"@,
        TypeSpecifierNonArray::SamplerCubeShadow => "samplerCubeShadow"@,
        TypeSpecifierNonArray::SamplerCubeArrayShadow => "samplerCubeArrayShadow"@,
        TypeSpecifierNonArray::ISampler1D => "isampler1D"@,
        TypeSpecifierNonArray::IImage1D => "iimage1D"@,
        TypeSpecifierNonArray::ISampler2D => "isampler2D"@,
        TypeSpecifierNonArray::IImage2D => "iimage2D"@,
        TypeSpecifierNonArray::ISampler3D => "isampler3D"@,
        TypeSpecifierNonArray::IImage3D => "iimage3D"@,
        TypeSpecifierNonArray::ISamplerCube => "isamplerCube"@,
        TypeSpecifierNonArray::IImageCube => "iimageCube"@,
        TypeSpecifierNonArray::ISampler2DRect => "isampler2DRect"@,
        TypeSpecifierNonArray::IImage2DRect => "iimage2DRect"@,
        TypeSpecifierNonArray::ISampler1DArray => "isampler1DArray"@,
        TypeSpecifierNonArray::IImage1DArray => "iimage1DArray"@,
        TypeSpecifierNonArray::ISampler2DArray => "isampler2DArray"@,
        TypeSpecifierNonArray::IImage2DArray => "iimage2DArray"@,
        TypeSpecifierNonArray::ISamplerBuffer => "isamplerBuffer"@,
        TypeSpecifierNonArray::IImageBuffer => "iimageBuffer"@,
        TypeSpecifierNonArray::ISampler2DMS => "isampler2MS"@,
        TypeSpecifierNonArray::IImage2DMS => "iimage2DMS"@,
        TypeSpecifierNonArray::ISampler2DMSArray => "isampler2DMSArray"@,
        TypeSpecifierNonArray::IImage2DMSArray => "iimage2DMSArray"@,
        TypeSpecifierNonArray::ISamplerCubeArray => "isamplerCubeArray"@,
        TypeSpecifierNonArray::IImageCubeArray => "iimageCubeArray"@,
        TypeSpecifierNonArray::AtomicUInt => "atomic_uint"@,
        TypeSpecifierNonArray::USampler1D => "usampler1D"@,
        TypeSpecifierNonArray::UImage1D => "uimage1D"@,
        TypeSpecifierNonArray::USampler2D => "usampler2D"@,
        TypeSpecifierNonArray::UImage2D => "uimage2D"@,
        TypeSpecifierNonArray::USampler3D => "usampler3D"@,
        TypeSpecifierNonArray::UImage3D => "uimage3D"@,
        TypeSpecifierNonArray::USamplerCube => "usamplerCube"@,
        TypeSpecifierNonArray::UImageCube => "uimageCube"@,
        TypeSpecifierNonArray::USampler2DRect => "usampler2DRect"@,
        TypeSpecifierNonArray::UImage2DRect => "uimage2DRect"@,
        TypeSpecifierNonArray::USampler1DArray => "usampler1DArray"@,
        TypeSpecifierNonArray::UImage1DArray => "uimage1DArray"@,
        TypeSpecifierNonArray::USampler2DArray => "usampler2DArray"@,
        TypeSpecifierNonArray::UImage2DArray => "uimage2DArray"@,
        TypeSpecifierNonArray::USamplerBuffer => "usamplerBuffer"@,
        TypeSpecifierNonArray::UImageBuffer => "uimageBuffer"@,
        TypeSpecifierNonArray::USampler2DMS => "usampler2DMS"@,
        TypeSpecifierNonArray::UImage2DMS => "uimage2DMS"@,
        TypeSpecifierNonArray::USampler2DMSArray => "usamplerDMSArray"@,
        TypeSpecifierNonArray::UImage2DMSArray => "uimage2DMSArray"@,
        TypeSpecifierNonArray::USamplerCubeArray => "usamplerCubeArray"@,
        TypeSpecifierNonArray::UImageCubeArray => "uimageCubeArray"@,
        TypeSpecifierNonArray::Struct(s) => struct_non_declaration_text(s, 0),
        TypeSpecifierNonArray::TypeName(tn) => tn.0@,
    }
}

/// A struct type written at indentation `i`.
pub open spec fn struct_non_declaration_text(s: StructSpecifier, i: int) -> Seq<char>
    decreases s,
{
    "struct "@ + (match s.name {
        Some(n) => n.0@ + " "@,
        None => Seq::empty(),
    }) + "{\n"@ + fields_text(s.fields@, i) + indent_text(i) + "}"@
}

/// The fields of a struct, each on its own line.
pub open spec fn fields_text(fs: Seq<StructFieldSpecifier>, i: int) -> Seq<char>
    decreases fs,
{
    if fs.len() == 0 {
        Seq::empty()
    } else {
        fields_text(fs.drop_last(), i) + struct_field_text(fs.last(), i)
    }
}

/// One field line of a struct at indentation `i`: `name: type;`.
pub open spec fn struct_field_text(fld: StructFieldSpecifier, i: int) -> Seq<char>
    decreases fld,
{
    indent_text(i + 1) + arrayed_identifiers_text(fld.identifiers@) + (match fld.qualifier {
        Some(q) => type_qualifier_text(q) + " "@,
        None => Seq::empty(),
    }) + ": "@ + type_specifier_text(fld.ty) + ";\n"@
}

/// A type with its array dimensions in GLSL form.
pub open spec fn type_specifier_text(t: TypeSpecifier) -> Seq<char>
    decreases t,
{
    non_array_text(t.ty) + opt_array_spec_text(t.array_specifier)
}

/// The dimensions of an array in GLSL form: `[n]` or `[]` each.
pub open spec fn dims_text(dims: Seq<ArraySpecifierDimension>) -> Seq<char>
    decreases dims,
{
    if dims.len() == 0 {
        Seq::empty()
    } else {
        dims_text(dims.drop_last()) + match dims.last() {
            ArraySpecifierDimension::Unsized => "[]"@,
            ArraySpecifierDimension::ExplicitlySized(e) => "["@ + expr_text(*e, false) + "]"@,
        }
    }
}

/// An array specifier in GLSL form.
pub open spec fn array_spec_text(a: ArraySpecifier) -> Seq<char> {
    dims_text(a.dimensions@)
}

/// An optional array specifier in GLSL form.
pub open spec fn opt_array_spec_text(a: Option<ArraySpecifier>) -> Seq<char> {
    match a {
        Some(a) => array_spec_text(a),
        None => Seq::empty(),
    }
}

/// Array dimensions as WGSL array types of the element type whose text is
/// `elem`: one `array<elem,n>` per dimension.
pub open spec fn dims_wgsl_text(dims: Seq<ArraySpecifierDimension>, elem: Seq<char>) -> Seq<char>
    decreases dims,
{
    if dims.len() == 0 {
        Seq::empty()
    } else {
        dims_wgsl_text(dims.drop_last(), elem) + match dims.last() {
            ArraySpecifierDimension::Unsized => "array<>"@,
            ArraySpecifierDimension::ExplicitlySized(e) => "array<"@ + elem + ","@ + expr_text(
                *e,
                false,
            ) + ">"@,
        }
    }
}

/// An array specifier as WGSL array types of `t`.
pub open spec fn array_spec_wgsl_text(a: ArraySpecifier, t: TypeSpecifierNonArray) -> Seq<char> {
    dims_wgsl_text(a.dimensions@, non_array_text(t))
}

/// A name with its GLSL array dimensions.
pub open spec fn arrayed_identifier_text(a: ArrayedIdentifier) -> Seq<char> {
    a.ident.0@ + opt_array_spec_text(a.array_spec)
}

/// Names with their dimensions, separated by `, `.
pub open spec fn arrayed_identifiers_text(s: Seq<ArrayedIdentifier>) -> Seq<char>
    decreases s.len(),
{
    if s.len() == 0 {
        Seq::empty()
    } else if s.len() == 1 {
        arrayed_identifier_text(s[0])
    } else {
        arrayed_identifiers_text(s.drop_last()) + ", "@ + arrayed_identifier_text(s.last())
    }
}

/// Type qualifiers separated by spaces.
pub open spec fn type_qualifier_text(q: TypeQualifier) -> Seq<char> {
    qualifier_specs_text(q.qualifiers@)
}

/// Type qualifiers separated by spaces.
pub open spec fn qualifier_specs_text(s: Seq<TypeQualifierSpec>) -> Seq<char>
    decreases s.len(),
{
    if s.len() == 0 {
        Seq::empty()
    } else if s.len() == 1 {
        type_qualifier_spec_text(s[0])
    } else {
        qualifier_specs_text(s.drop_last()) + " "@ + type_qualifier_spec_text(s.last())
    }
}

/// One type qualifier.
pub open spec fn type_qualifier_spec_text(q: TypeQualifierSpec) -> Seq<char> {
    match q {
        TypeQualifierSpec::Storage(s) => storage_qualifier_text(s),
        TypeQualifierSpec::Layout(l) => layout_qualifier_text(l),
        TypeQualifierSpec::Precision(p) => precision_qualifier_text(p),
        TypeQualifierSpec::Interpolation(i) => interpolation_qualifier_text(i),
        TypeQualifierSpec::Invariant => "invariant"@,
        TypeQualifierSpec::Precise => "precise"@,
    }
}

/// A storage qualifier; `in` and `out` write nothing, `uniform` writes a
/// WGSL binding attribute and `var<uniform>`.
pub open spec fn storage_qualifier_text(q: StorageQualifier) -> Seq<char> {
    match q {
        StorageQualifier::Const => "const"@,
        StorageQualifier::InOut => "inout "@,
        StorageQualifier::In => ""@,
        StorageQualifier::Out => ""@,
        StorageQualifier::Centroid => "centroid"@,
        StorageQualifier::Patch => "patch"@,
        StorageQualifier::Sample => "sample"@,
        StorageQualifier::Uniform => "\n[[group(?), binding(?)]]\n"@ + "var<uniform>"@,
        StorageQualifier::Attribute => "attribute"@,
        StorageQualifier::Varying => "varying"@,
        StorageQualifier::Buffer => "buffer"@,
        StorageQualifier::Shared => "shared"@,
        StorageQualifier::Coherent => "coherent"@,
        StorageQualifier::Volatile => "volatile"@,
        StorageQualifier::Restrict => "restrict"@,
        StorageQualifier::ReadOnly => "readonly"@,
        StorageQualifier::WriteOnly => "writeonly"@,
        StorageQualifier::Subroutine(n) => subroutine_text(n@),
    }
}

/// `subroutine`, with the type names in parentheses where there are any.
pub open spec fn subroutine_text(types: Seq<TypeName>) -> Seq<char> {
    "subroutine"@ + if types.len() > 0 {
        "("@ + type_names_text(types) + ")"@
    } else {
        Seq::empty()
    }
}

/// Type names separated by `, `.
pub open spec fn type_names_text(s: Seq<TypeName>) -> Seq<char>
    decreases s.len(),
{
    if s.len() == 0 {
        Seq::empty()
    } else if s.len() == 1 {
        s[0].0@
    } else {
        type_names_text(s.drop_last()) + ", "@ + s.last().0@
    }
}

/// `layout (...)` with its entries separated by `, `.
pub open spec fn layout_qualifier_text(l: LayoutQualifier) -> Seq<char> {
    "layout ("@ + layout_specs_text(l.ids@) + ")"@
}

/// Layout entries separated by `, `.
pub open spec fn layout_specs_text(s: Seq<LayoutQualifierSpec>) -> Seq<char>
    decreases s.len(),
{
    if s.len() == 0 {
        Seq::empty()
    } else if s.len() == 1 {
        layout_qualifier_spec_text(s[0])
    } else {
        layout_specs_text(s.drop_last()) + ", "@ + layout_qualifier_spec_text(s.last())
    }
}

/// One layout entry.
pub open spec fn layout_qualifier_spec_text(l: LayoutQualifierSpec) -> Seq<char> {
    match l {
        LayoutQualifierSpec::Identifier(i, Some(e)) => i.0@ + " = "@ + expr_text(*e, false),
        LayoutQualifierSpec::Identifier(i, None) => identifier_text(i),
        LayoutQualifierSpec::Shared => "shared"@,
    }
}

/// A precision qualifier.
pub open spec fn precision_qualifier_text(p: PrecisionQualifier) -> Seq<char> {
    match p {
        PrecisionQualifier::High => "highp"@,
        PrecisionQualifier::Medium => "mediump"@,
        PrecisionQualifier::Low => "low"@,
    }
}

/// An interpolation qualifier.
pub open spec fn interpolation_qualifier_text(i: InterpolationQualifier) -> Seq<char> {
    match i {
        InterpolationQualifier::Smooth => "smooth"@,
        InterpolationQualifier::Flat => "flat"@,
        InterpolationQualifier::NoPerspective => "noperspective"@,
    }
}

/// A type qualifier list is non-empty, and so is each layout qualifier in it.
pub open spec fn wf_type_qualifier(q: TypeQualifier) -> bool {
    &&& q.qualifiers@.len() > 0
    &&& forall|k: int| 0 <= k < q.qualifiers@.len() ==> wf_qualifier_spec(#[trigger] q.qualifiers@[k])
}

/// A layout qualifier has at least one entry.
pub open spec fn wf_qualifier_spec(q: TypeQualifierSpec) -> bool {
    match q {
        TypeQualifierSpec::Layout(l) => l.ids@.len() > 0,
        _ => true,
    }
}

/// Every list that the printer reads the first element of is non-empty,
/// throughout the type.
pub open spec fn wf_non_array(t: TypeSpecifierNonArray) -> bool
    decreases t,
{
    match t {
        TypeSpecifierNonArray::Struct(s) => wf_struct(s),
        _ => true,
    }
}

/// Every field of the struct is well formed.
pub open spec fn wf_struct(s: StructSpecifier) -> bool
    decreases s,
{
    forall|k: int| 0 <= k < s.fields@.len() ==> wf_field(#[trigger] s.fields@[k])
}

/// A field names at least one variable, and its qualifiers and type are well
/// formed.
pub open spec fn wf_field(fld: StructFieldSpecifier) -> bool
    decreases fld,
{
    &&& fld.identifiers@.len() > 0
    &&& match fld.qualifier {
        Some(q) => wf_type_qualifier(q),
        None => true,
    }
    &&& wf_type_specifier(fld.ty)
}

/// The type is well formed.
pub open spec fn wf_type_specifier(t: TypeSpecifier) -> bool
    decreases t,
{
    wf_non_array(t.ty)
}

/// `r` is what `convert_to_float` makes of `e`, with `as_float` telling
/// whether the target type has float components: integer constants become
/// float constants and function calls have their arguments converted when
/// it holds; a unary minus, the right operand of a binary operator and the
/// value of an assignment are converted in any case; everything else is
/// left as it is.
pub open spec fn converts_to_float(e: Expr, as_float: bool, r: Expr) -> bool
    decreases e,
{
    match e {
        Expr::IntConst(x) => if as_float {
            r matches Expr::FloatConst(s) && s@ == int_as_float_text(x as int)
        } else {
            r == e
        },
        Expr::UIntConst(x) => if as_float {
            r matches Expr::FloatConst(s) && s@ == int_as_float_text(x as int)
        } else {
            r == e
        },
        Expr::FunCall(fun, args) => if as_float {
            &&& r matches Expr::FunCall(fun2, args2)
            &&& fun2 == fun
            &&& args2@.len() == args@.len()
            &&& forall|k: int|
                0 <= k < args@.len() ==> converts_to_float(
                    #[trigger] args@[k],
                    true,
                    args2@[k],
                )
        } else {
            r == e
        },
        Expr::Unary(op, x) => if op == UnaryOp::Minus {
            r matches Expr::Unary(op2, x2) && op2 == op && converts_to_float(*x, as_float, *x2)
        } else {
            r == e
        },
        Expr::Binary(op, l, x) => r matches Expr::Binary(op2, l2, x2) && op2 == op && l2 == l
            && converts_to_float(*x, as_float, *x2),
        Expr::Assignment(v, op, x) => r matches Expr::Assignment(v2, op2, x2) && op2 == op && v2
            == v && converts_to_float(*x, as_float, *x2),
        _ => r == e,
    }
}

/// An initializer for a variable of type `ty`: integer constants in it are
/// written as floats when `ty` has float components, and as vectors where
/// they are passed to a function in the value of a float vector.
pub open spec fn initializer_text(ini: Initializer, ty: TypeSpecifierNonArray) -> Seq<char>
    decreases ini,
{
    match ini {
        Initializer::Simple(e) => mode_text(*e, value_mode(ty)),
        Initializer::List(l) => "{ "@ + initializers_text(l@, ty) + " }"@,
    }
}

/// Initializers separated by `, `.
pub open spec fn initializers_text(s: Seq<Initializer>, ty: TypeSpecifierNonArray) -> Seq<char>
    decreases s,
{
    if s.len() == 0 {
        Seq::empty()
    } else if s.len() == 1 {
        initializer_text(s[0], ty)
    } else {
        initializers_text(s.drop_last(), ty) + ", "@ + initializer_text(s.last(), ty)
    }
}

/// Every initializer list in it is non-empty.
pub open spec fn wf_initializer(ini: Initializer) -> bool
    decreases ini,
{
    match ini {
        Initializer::Simple(_) => true,
        Initializer::List(l) => l@.len() > 0 && forall|k: int|
            0 <= k < l@.len() ==> wf_initializer(#[trigger] l@[k]),
    }
}

/// Optional qualifiers are well formed where they are present.
pub open spec fn wf_opt_qualifier(q: Option<TypeQualifier>) -> bool {
    match q {
        Some(q) => wf_type_qualifier(q),
        None => true,
    }
}

/// Optional qualifiers followed by a space, or nothing.
pub open spec fn opt_qualifier_space_text(q: Option<TypeQualifier>) -> Seq<char> {
    match q {
        Some(q) => type_qualifier_text(q) + " "@,
        None => Seq::empty(),
    }
}

/// `fn name(parameters) -> type`.
pub open spec fn function_prototype_text(fp: FunctionPrototype) -> Seq<char> {
    "fn "@ + identifier_text(fp.name) + "("@ + parameters_text(fp.parameters@) + ")"@ + " -> "@
        + type_specifier_text(fp.ty.ty)
}

/// Parameters separated by `, `.
pub open spec fn parameters_text(s: Seq<FunctionParameterDeclaration>) -> Seq<char>
    decreases s.len(),
{
    if s.len() == 0 {
        Seq::empty()
    } else if s.len() == 1 {
        parameter_text(s[0])
    } else {
        parameters_text(s.drop_last()) + ", "@ + parameter_text(s.last())
    }
}

/// One parameter: its qualifiers, then `name: type` or the type alone.
pub open spec fn parameter_text(p: FunctionParameterDeclaration) -> Seq<char> {
    match p {
        FunctionParameterDeclaration::Named(q, d) => (match q {
            Some(q) => type_qualifier_text(q),
            None => Seq::empty(),
        }) + declarator_text(d),
        FunctionParameterDeclaration::Unnamed(q, ty) => opt_qualifier_space_text(q)
            + type_specifier_text(ty),
    }
}

/// `name: type` of a named parameter.
pub open spec fn declarator_text(d: FunctionParameterDeclarator) -> Seq<char> {
    arrayed_identifier_text(d.ident) + ": "@ + type_specifier_text(d.ty)
}

/// A parameter's qualifiers and type are well formed.
pub open spec fn wf_parameter(p: FunctionParameterDeclaration) -> bool {
    match p {
        FunctionParameterDeclaration::Named(q, d) => wf_opt_qualifier(q) && wf_type_specifier(d.ty),
        FunctionParameterDeclaration::Unnamed(q, ty) => wf_opt_qualifier(q) && wf_type_specifier(ty),
    }
}

/// A prototype's return type and parameters are well formed.
pub open spec fn wf_prototype(fp: FunctionPrototype) -> bool {
    &&& wf_type_specifier(fp.ty.ty)
    &&& forall|k: int| 0 <= k < fp.parameters@.len() ==> wf_parameter(#[trigger] fp.parameters@[k])
}

/// Whether a declaration's value is a ternary expression.
pub open spec fn has_ternary_initializer(d: SingleDeclaration) -> bool {
    match d.initializer {
        Some(Initializer::Simple(e)) => *e is Ternary,
        _ => false,
    }
}

/// The name and type of the first variable of a declaration at indentation
/// `i`: `let` for a variable with a value, `var<private>` for one without a
/// value at the top level, `var` for one without a value in a function,
/// nothing more where qualifiers are given.
pub open spec fn single_declaration_name_text(d: SingleDeclaration, i: int) -> Seq<char> {
    let type_part = match d.array_specifier {
        Some(a) => array_spec_wgsl_text(a, d.ty.ty.ty),
        None => type_specifier_text(d.ty.ty),
    };
    match d.name {
        Some(n) => (if d.ty.qualifier is Some {
            Seq::empty()
        } else if d.initializer is Some {
            "let "@
        } else if i == 0 {
            "var<private> "@
        } else {
            "var "@
        }) + identifier_text(n) + ": "@ + type_part,
        None => type_part,
    }
}

/// The value part of the first variable of a declaration: ` = value`; a
/// ternary value becomes an `if` that assigns the variable in each branch.
pub open spec fn single_declaration_init_text(d: SingleDeclaration) -> Seq<char> {
    if !has_ternary_initializer(d) {
        match d.initializer {
            Some(ini) => " = "@ + initializer_text(ini, d.ty.ty.ty),
            None => Seq::empty(),
        }
    } else {
        "; "@ + match d.name {
            Some(n) => match d.initializer {
                Some(Initializer::Simple(e)) => match *e {
                    Expr::Ternary(a, b, c) => ternary_text(
                        Some(n.0@),
                        expr_text(*a, false),
                        expr_prec(*a),
                        expr_text(*b, false),
                        expr_text(*c, false),
                        expr_prec(*c),
                    ),
                    _ => Seq::empty(),
                },
                _ => Seq::empty(),
            },
            None => Seq::empty(),
        }
    }
}

/// The first variable of a declaration at indentation `i`.
pub open spec fn single_declaration_text(d: SingleDeclaration, i: int) -> Seq<char> {
    indent_text(i) + opt_qualifier_space_text(d.ty.qualifier) + single_declaration_name_text(d, i)
        + single_declaration_init_text(d)
}

/// A further variable of a declaration whose type is `t`.
pub open spec fn single_declaration_no_type_text(
    d: SingleDeclarationNoType,
    t: FullySpecifiedType,
    i: int,
) -> Seq<char> {
    (match t.qualifier {
        Some(q) => type_qualifier_text(q) + " "@,
        None => indent_text(i) + "let "@,
    }) + arrayed_identifier_text(d.ident) + ": "@ + type_specifier_text(t.ty) + match d.initializer {
        Some(ini) => " = "@ + initializer_text(ini, t.ty.ty),
        None => Seq::empty(),
    }
}

/// The further variables of a declaration, each after `;` and a newline.
pub open spec fn declaration_tail_text(
    s: Seq<SingleDeclarationNoType>,
    t: FullySpecifiedType,
    i: int,
) -> Seq<char>
    decreases s.len(),
{
    if s.len() == 0 {
        Seq::empty()
    } else {
        declaration_tail_text(s.drop_last(), t, i) + ";\n"@ + single_declaration_no_type_text(
            s.last(),
            t,
            i,
        )
    }
}

/// A declaration of one or more variables at indentation `i`.
pub open spec fn init_declarator_list_text(l: InitDeclaratorList, i: int) -> Seq<char> {
    single_declaration_text(l.head, i) + declaration_tail_text(l.tail@, l.head.ty, i)
}

/// The type, qualifiers and values of a declaration are well formed.
pub open spec fn wf_single_declaration(d: SingleDeclaration) -> bool {
    &&& wf_type_specifier(d.ty.ty)
    &&& wf_opt_qualifier(d.ty.qualifier)
    &&& match d.initializer {
        Some(ini) => wf_initializer(ini),
        None => true,
    }
}

/// Every part of a declaration list is well formed.
pub open spec fn wf_init_declarator_list(l: InitDeclaratorList) -> bool {
    &&& wf_single_declaration(l.head)
    &&& forall|k: int|
        0 <= k < l.tail@.len() ==> match (#[trigger] l.tail@[k]).initializer {
            Some(ini) => wf_initializer(ini),
            None => true,
        }
}

/// A block: qualifiers, name and fields at indentation `i`.
pub open spec fn block_text(b: Block, i: int) -> Seq<char> {
    type_qualifier_text(b.qualifier) + " "@ + identifier_text(b.name) + " {"@ + block_fields_text(
        b.fields@,
        i + 1,
    ) + indent_text(i) + "}"@ + match b.identifier {
        Some(a) => arrayed_identifier_text(a),
        None => Seq::empty(),
    }
}

/// The fields of a block, each followed by an empty line.
pub open spec fn block_fields_text(fs: Seq<StructFieldSpecifier>, i: int) -> Seq<char>
    decreases fs.len(),
{
    if fs.len() == 0 {
        Seq::empty()
    } else {
        block_fields_text(fs.drop_last(), i) + struct_field_text(fs.last(), i) + "\n"@
    }
}

/// The names of a global declaration: the first with built-in names
/// translated, the others as written, separated by `, `.
pub open spec fn globals_text(s: Seq<Identifier>) -> Seq<char>
    decreases s.len(),
{
    if s.len() == 0 {
        Seq::empty()
    } else if s.len() == 1 {
        identifier_text(s[0])
    } else {
        globals_text(s.drop_last()) + ", "@ + s.last().0@
    }
}

/// A declaration at indentation `i`.
pub open spec fn declaration_text(d: Declaration, i: int) -> Seq<char> {
    match d {
        Declaration::FunctionPrototype(p) => function_prototype_text(p) + ";"@,
        Declaration::InitDeclaratorList(l) => init_declarator_list_text(l, i) + ";"@,
        Declaration::Precision(q, ty) => precision_qualifier_text(q) + type_specifier_text(ty)
            + ";\n"@,
        Declaration::Block(b) => block_text(b, i) + ";\n"@,
        Declaration::Global(q, ids) => type_qualifier_text(q) + globals_text(ids@) + ";\n"@,
    }
}

/// Every part of a declaration is well formed.
pub open spec fn wf_declaration(d: Declaration) -> bool {
    match d {
        Declaration::FunctionPrototype(p) => wf_prototype(p),
        Declaration::InitDeclaratorList(l) => wf_init_declarator_list(l),
        Declaration::Precision(_, ty) => wf_type_specifier(ty),
        Declaration::Block(b) => wf_type_qualifier(b.qualifier) && forall|k: int|
            0 <= k < b.fields@.len() ==> wf_field(#[trigger] b.fields@[k]),
        Declaration::Global(q, _) => wf_type_qualifier(q),
    }
}

/// A statement at indentation `i`; `single_line` for the branch of an `if`
/// that is not a compound statement.
pub open spec fn statement_text(st: Statement, i: int, single_line: bool) -> Seq<char>
    decreases st,
{
    match st {
        Statement::Compound(c) => compound_statement_text(*c, i),
        Statement::Simple(s) => simple_statement_text(*s, i, single_line),
    }
}

/// The statements of a block, one level deeper than `i`.
pub open spec fn compound_statement_text(c: CompoundStatement, i: int) -> Seq<char>
    decreases c,
{
    statements_text(c.statement_list@, i + 1)
}

/// Statements at indentation `i`, one after the other.
pub open spec fn statements_text(s: Seq<Statement>, i: int) -> Seq<char>
    decreases s,
{
    if s.len() == 0 {
        Seq::empty()
    } else {
        statements_text(s.drop_last(), i) + statement_text(s.last(), i, false)
    }
}

/// A statement that is not a block.
pub open spec fn simple_statement_text(s: SimpleStatement, i: int, single_line: bool) -> Seq<char>
    decreases s,
{
    match s {
        SimpleStatement::Declaration(d) => declaration_text(d, i) + "\n"@,
        SimpleStatement::Expression(e) => expression_statement_text(e, i, single_line),
        SimpleStatement::Selection(sel) => selection_statement_text(sel, i),
        SimpleStatement::Switch(sw) => switch_statement_text(sw, i),
        SimpleStatement::CaseLabel(cl) => case_label_text(cl, i),
        SimpleStatement::Iteration(it) => iteration_statement_text(it, i),
        SimpleStatement::Jump(j) => jump_statement_text(j, i),
    }
}

/// An expression statement: on its own indented line, or after a space when
/// `single_line` holds.
pub open spec fn expression_statement_text(e: Option<Expr>, i: int, single_line: bool) -> Seq<
    char,
> {
    (match e {
        Some(e) => (if single_line {
            " "@
        } else {
            indent_text(i)
        }) + expr_text(e, false),
        None => Seq::empty(),
    }) + ";"@ + if single_line {
        Seq::empty()
    } else {
        "\n"@
    }
}

/// Whether an `if` has a single branch that is not a block.
pub open spec fn is_single_line_if(sst: SelectionStatement) -> bool {
    match sst.rest {
        SelectionRestStatement::Statement(st) => *st is Simple,
        _ => false,
    }
}

/// An `if` statement at indentation `i`.
pub open spec fn selection_statement_text(sst: SelectionStatement, i: int) -> Seq<char>
    decreases sst,
{
    let single = is_single_line_if(sst);
    indent_text(i) + "if ("@ + expr_text(*sst.cond, false) + ") {"@ + (if single {
        Seq::empty()
    } else {
        "\n"@
    }) + selection_rest_text(sst.rest, i, single)
}

/// The branches of an `if` statement and their closing braces.
pub open spec fn selection_rest_text(r: SelectionRestStatement, i: int, single_line: bool) -> Seq<
    char,
>
    decreases r,
{
    match r {
        SelectionRestStatement::Statement(st) => statement_text(*st, i, single_line) + (if single_line {
            " "@
        } else {
            indent_text(i)
        }) + "}\n"@,
        SelectionRestStatement::Else(a, b) => statement_text(*a, i, single_line) + indent_text(i)
            + "} else { \n"@ + statement_text(*b, i, single_line) + indent_text(i) + "}\n"@,
    }
}

/// A `switch` statement at indentation `i`.
pub open spec fn switch_statement_text(sw: SwitchStatement, i: int) -> Seq<char>
    decreases sw,
{
    indent_text(i) + "switch ("@ + expr_text(*sw.head, false) + ") {\n"@ + statements_text(
        sw.body@,
        i + 1,
    ) + "}\n"@
}

/// A `case` or `default` label, one level deeper than `i`.
pub open spec fn case_label_text(cl: CaseLabel, i: int) -> Seq<char> {
    indent_text(i + 1) + match cl {
        CaseLabel::Case(e) => "case "@ + expr_text(*e, false) + ":\n"@,
        CaseLabel::Def => "default:\n"@,
    }
}

/// The type that the values in a `for` header are converted to: that of
/// the declared variable, or `int`.
pub open spec fn for_init_type(init: ForInitStatement) -> TypeSpecifierNonArray {
    match init {
        ForInitStatement::Declaration(d) => match *d {
            Declaration::InitDeclaratorList(idl) => idl.head.ty.ty.ty,
            _ => TypeSpecifierNonArray::Int,
        },
        _ => TypeSpecifierNonArray::Int,
    }
}

/// A loop at indentation `i`.
pub open spec fn iteration_statement_text(it: IterationStatement, i: int) -> Seq<char>
    decreases it,
{
    match it {
        IterationStatement::While(cond, body) => "while ("@ + condition_text(
            cond,
            TypeSpecifierNonArray::Int,
        ) + ") "@ + statement_text(*body, i, false),
        IterationStatement::DoWhile(body, cond) => "do "@ + statement_text(*body, i, false)
            + " while ("@ + expr_text(*cond, false) + ")\n"@,
        IterationStatement::For(init, rest, body) => {
            let ty = for_init_type(init);
            "\n"@ + indent_text(i) + "for ("@ + for_init_statement_text(init, ty) + " "@
                + for_rest_statement_text(rest, ty) + ") {\n"@ + statement_text(*body, i, false)
                + indent_text(i) + "}\n\n"@
        },
    }
}

/// A loop condition; integer constants become floats when `ty` has float
/// components.
pub open spec fn condition_text(c: Condition, ty: TypeSpecifierNonArray) -> Seq<char> {
    match c {
        Condition::Expr(e) => expr_text(*e, is_float_type(ty)),
        Condition::Assignment(t, name, ini) => type_specifier_text(t.ty) + " "@ + identifier_text(
            name,
        ) + " = "@ + initializer_text(ini, t.ty.ty),
    }
}

/// The first part of a `for` header.
pub open spec fn for_init_statement_text(init: ForInitStatement, ty: TypeSpecifierNonArray) -> Seq<
    char,
> {
    match init {
        ForInitStatement::Expression(Some(e)) => expr_text(e, is_float_type(ty)),
        ForInitStatement::Expression(None) => Seq::empty(),
        ForInitStatement::Declaration(d) => declaration_text(*d, 0),
    }
}

/// The condition and step of a `for` header.
pub open spec fn for_rest_statement_text(r: ForRestStatement, ty: TypeSpecifierNonArray) -> Seq<
    char,
> {
    (match r.condition {
        Some(c) => condition_text(c, ty),
        None => Seq::empty(),
    }) + "; "@ + match r.post_expr {
        Some(e) => expr_text(*e, is_float_type(ty)),
        None => Seq::empty(),
    }
}

/// A jump at indentation `i`.
pub open spec fn jump_statement_text(j: JumpStatement, i: int) -> Seq<char> {
    indent_text(i) + match j {
        JumpStatement::Continue => "continue;\n"@,
        JumpStatement::Break => "break;\n"@,
        JumpStatement::Discard => "discard;\n"@,
        JumpStatement::Return(e) => "return "@ + (match e {
            Some(e) => expr_text(*e, false),
            None => Seq::empty(),
        }) + ";\n"@,
    }
}

/// A function with its body at indentation `i`.
pub open spec fn function_definition_text(fd: FunctionDefinition, i: int) -> Seq<char> {
    function_prototype_text(fd.prototype) + " {\n"@ + compound_statement_text(fd.statement, i)
        + indent_text(i) + "} \n"@
}

/// The condition of a loop is well formed.
pub open spec fn wf_condition(c: Condition) -> bool {
    match c {
        Condition::Expr(_) => true,
        Condition::Assignment(t, _, ini) => wf_type_specifier(t.ty) && wf_initializer(ini),
    }
}

/// Every declaration and condition in the statement is well formed.
pub open spec fn wf_statement(st: Statement) -> bool
    decreases st,
{
    match st {
        Statement::Compound(c) => wf_compound(*c),
        Statement::Simple(s) => wf_simple_statement(*s),
    }
}

/// Every statement of the block is well formed.
pub open spec fn wf_compound(c: CompoundStatement) -> bool
    decreases c,
{
    forall|k: int| 0 <= k < c.statement_list@.len() ==> wf_statement(#[trigger] c.statement_list@[k])
}

/// Every declaration and condition in the statement is well formed.
pub open spec fn wf_simple_statement(s: SimpleStatement) -> bool
    decreases s,
{
    match s {
        SimpleStatement::Declaration(d) => wf_declaration(d),
        SimpleStatement::Selection(sel) => wf_selection(sel),
        SimpleStatement::Switch(sw) => wf_switch(sw),
        SimpleStatement::Iteration(it) => wf_iteration(it),
        _ => true,
    }
}

/// Both branches of the `if` are well formed.
pub open spec fn wf_selection(sel: SelectionStatement) -> bool
    decreases sel,
{
    wf_selection_rest(sel.rest)
}

/// The branches are well formed.
pub open spec fn wf_selection_rest(r: SelectionRestStatement) -> bool
    decreases r,
{
    match r {
        SelectionRestStatement::Statement(st) => wf_statement(*st),
        SelectionRestStatement::Else(a, b) => wf_statement(*a) && wf_statement(*b),
    }
}

/// Every statement of the `switch` is well formed.
pub open spec fn wf_switch(sw: SwitchStatement) -> bool
    decreases sw,
{
    forall|k: int| 0 <= k < sw.body@.len() ==> wf_statement(#[trigger] sw.body@[k])
}

/// The header and body of the loop are well formed.
pub open spec fn wf_iteration(it: IterationStatement) -> bool
    decreases it,
{
    match it {
        IterationStatement::While(c, body) => wf_condition(c) && wf_statement(*body),
        IterationStatement::DoWhile(body, _) => wf_statement(*body),
        IterationStatement::For(init, rest, body) => wf_for_init(init) && wf_for_rest(rest)
            && wf_statement(*body),
    }
}

/// A declaration in a `for` header is well formed.
pub open spec fn wf_for_init(init: ForInitStatement) -> bool {
    match init {
        ForInitStatement::Declaration(d) => wf_declaration(*d),
        _ => true,
    }
}

/// The condition in a `for` header is well formed.
pub open spec fn wf_for_rest(rest: ForRestStatement) -> bool {
    match rest.condition {
        Some(c) => wf_condition(c),
        None => true,
    }
}

/// The larger of two numbers.
pub open spec fn max_nat(a: nat, b: nat) -> nat {
    if a >= b { a } else { b }
}

/// How many levels of indentation deeper than its own the statement writes.
pub open spec fn statement_depth(st: Statement) -> nat
    decreases st,
{
    match st {
        Statement::Compound(c) => compound_depth(*c),
        Statement::Simple(s) => simple_statement_depth(*s),
    }
}

/// How many levels of indentation deeper than its own the block writes.
pub open spec fn compound_depth(c: CompoundStatement) -> nat
    decreases c,
{
    1 + statements_depth(c.statement_list@)
}

/// The largest depth among the statements.
pub open spec fn statements_depth(s: Seq<Statement>) -> nat
    decreases s,
{
    if s.len() == 0 {
        0
    } else {
        max_nat(statements_depth(s.drop_last()), statement_depth(s.last()))
    }
}

/// How many levels of indentation deeper than its own the statement writes.
pub open spec fn simple_statement_depth(s: SimpleStatement) -> nat
    decreases s,
{
    match s {
        SimpleStatement::Declaration(_) => 2,
        SimpleStatement::Selection(sel) => selection_depth(sel),
        SimpleStatement::Switch(sw) => switch_depth(sw),
        SimpleStatement::CaseLabel(_) => 1,
        SimpleStatement::Iteration(it) => iteration_depth(it),
        _ => 0,
    }
}

/// The depth of the deeper branch of an `if`.
pub open spec fn selection_depth(sel: SelectionStatement) -> nat
    decreases sel,
{
    selection_rest_depth(sel.rest)
}

/// The depth of the deeper branch.
pub open spec fn selection_rest_depth(r: SelectionRestStatement) -> nat
    decreases r,
{
    match r {
        SelectionRestStatement::Statement(st) => statement_depth(*st),
        SelectionRestStatement::Else(a, b) => max_nat(statement_depth(*a), statement_depth(*b)),
    }
}

/// One more than the depth of the statements of a `switch`.
pub open spec fn switch_depth(sw: SwitchStatement) -> nat
    decreases sw,
{
    1 + statements_depth(sw.body@)
}

/// The depth of a loop: that of its body, and at least the depth of a
/// declaration in its header.
pub open spec fn iteration_depth(it: IterationStatement) -> nat
    decreases it,
{
    match it {
        IterationStatement::While(_, body) => statement_depth(*body),
        IterationStatement::DoWhile(body, _) => statement_depth(*body),
        IterationStatement::For(_, _, body) => statement_depth(*body),
    }
}

/// The path of an `#include`: `<path>` or `"path"`.
pub open spec fn path_text(p: Path) -> Seq<char> {
    match p {
        Path::Absolute(s) => "<"@ + s@ + ">"@,
        Path::Relative(s) => "\""@ + s@ + "\""@,
    }
}

/// Identifiers as written, separated by `, `.
pub open spec fn raw_identifiers_text(s: Seq<Identifier>) -> Seq<char>
    decreases s.len(),
{
    if s.len() == 0 {
        Seq::empty()
    } else if s.len() == 1 {
        s[0].0@
    } else {
        raw_identifiers_text(s.drop_last()) + ", "@ + s.last().0@
    }
}

/// A `#define` line.
pub open spec fn preprocessor_define_text(pd: PreprocessorDefine) -> Seq<char> {
    match pd {
        PreprocessorDefine::ObjectLike { ident, value } => "#define "@ + ident.0@ + " "@ + value@
            + "\n"@,
        PreprocessorDefine::FunctionLike { ident, args, value } => "#define "@ + ident.0@ + "("@
            + raw_identifiers_text(args@) + ") "@ + value@ + "\n"@,
    }
}

/// A `#line` line.
pub open spec fn preprocessor_line_text(pl: PreprocessorLine) -> Seq<char> {
    "#line "@ + nat_digits(pl.line as nat) + (match pl.source_string_number {
        Some(n) => " "@ + nat_digits(n as nat),
        None => Seq::empty(),
    }) + "\n"@
}

/// A `#version` line.
pub open spec fn preprocessor_version_text(pv: PreprocessorVersion) -> Seq<char> {
    "#version "@ + nat_digits(pv.version as nat) + (match pv.profile {
        Some(PreprocessorVersionProfile::Core) => " core"@,
        Some(PreprocessorVersionProfile::Compatibility) => " compatibility"@,
        Some(PreprocessorVersionProfile::ES) => " es"@,
        None => Seq::empty(),
    }) + "\n"@
}

/// An `#extension` line.
pub open spec fn preprocessor_extension_text(pe: PreprocessorExtension) -> Seq<char> {
    "#extension "@ + (match pe.name {
        PreprocessorExtensionName::All => "all"@,
        PreprocessorExtensionName::Specific(n) => n@,
    }) + (match pe.behavior {
        Some(PreprocessorExtensionBehavior::Require) => " : require"@,
        Some(PreprocessorExtensionBehavior::Enable) => " : enable"@,
        Some(PreprocessorExtensionBehavior::Warn) => " : warn"@,
        Some(PreprocessorExtensionBehavior::Disable) => " : disable"@,
        None => Seq::empty(),
    }) + "\n"@
}

/// A preprocessor directive on its own line.
pub open spec fn preprocessor_text(pp: Preprocessor) -> Seq<char> {
    match pp {
        Preprocessor::Define(pd) => preprocessor_define_text(pd),
        Preprocessor::Else => "#else\n"@,
        Preprocessor::ElseIf(pei) => "#elseif "@ + pei.condition@ + "\n"@,
        Preprocessor::EndIf => "#endif\n"@,
        Preprocessor::Error(pe) => "#error "@ + pe.message@ + "\n"@,
        Preprocessor::If(pi) => "#if "@ + pi.condition@ + "\n"@,
        Preprocessor::IfDef(pid) => "#ifdef "@ + identifier_text(pid.ident) + "\n"@,
        Preprocessor::IfNDef(pind) => "#ifndef "@ + identifier_text(pind.ident) + "\n"@,
        Preprocessor::Include(pi) => "#include "@ + path_text(pi.path) + "\n"@,
        Preprocessor::Line(pl) => preprocessor_line_text(pl),
        Preprocessor::Pragma(pp) => "#pragma "@ + pp.command@ + "\n"@,
        Preprocessor::Undef(pu) => "#undef "@ + identifier_text(pu.name) + "\n"@,
        Preprocessor::Version(pv) => preprocessor_version_text(pv),
        Preprocessor::Extension(pe) => preprocessor_extension_text(pe),
    }
}

/// A top-level item at indentation `i`.
pub open spec fn external_declaration_text(ed: ExternalDeclaration, i: int) -> Seq<char> {
    match ed {
        ExternalDeclaration::Preprocessor(pp) => preprocessor_text(pp),
        ExternalDeclaration::FunctionDefinition(fd) => function_definition_text(fd, i),
        ExternalDeclaration::Declaration(d) => declaration_text(d, i),
    }
}

/// Top-level items, each followed by a newline.
pub open spec fn external_declarations_text(s: Seq<ExternalDeclaration>) -> Seq<char>
    decreases s.len(),
{
    if s.len() == 0 {
        Seq::empty()
    } else {
        external_declarations_text(s.drop_last()) + external_declaration_text(s.last(), 0) + "\n"@
    }
}

/// The WGSL text of a whole program.
pub open spec fn translation_unit_text(tu: TranslationUnit) -> Seq<char> {
    external_declarations_text(tu.0@)
}

/// Every part of a top-level item is well formed, and the statements of a
/// function body nest less deeply than `i32::MAX` levels minus `i`.
pub open spec fn wf_external_declaration(ed: ExternalDeclaration, i: int) -> bool {
    match ed {
        ExternalDeclaration::Preprocessor(_) => true,
        ExternalDeclaration::FunctionDefinition(fd) => wf_prototype(fd.prototype) && wf_compound(
            fd.statement,
        ) && i + compound_depth(fd.statement) <= i32::MAX,
        ExternalDeclaration::Declaration(d) => wf_declaration(d) && i <= i32::MAX - 2,
    }
}

/// Every top-level item of the program is well formed.
pub open spec fn wf_translation_unit(tu: TranslationUnit) -> bool {
    forall|k: int| 0 <= k < tu.0@.len() ==> wf_external_declaration(#[trigger] tu.0@[k], 0)
}

} // verus!
