//! A GLSL to WGSL transpiler that takes a syntax tree and writes it as WGSL
//! text.
//!
//! Each `show_*` function appends the WGSL text of one kind of node to a
//! `String`; its contract states that text with the spec functions of
//! `wgsl_text`.

use vstd::prelude::*;
use itertools::Itertools;
use crate::syntax;
use crate::syntax::TypeSpecifierNonArray;
use crate::text::{push_char, str_eq, to_chars, write_int, write_nat};
use crate::transpiler::wgsl_text::{
    args_text, assignment_text, binary_op_text, binary_prec, builtin_name, dims_value_text,
    float_vector_text, mode_args_text, mode_text, paren, position_letter, value_mode,
    expr_prec, expr_text, identifier_text, indent_text, is_float_name, is_k_permutation,
    is_swizzle_text, swizzle_lines, ternary_text, assignment_op_text, unary_op_text,
    assignment_head, assignment_op_part, is_swizzle_target, swizzle_name, swizzle_var,
    array_spec_text, array_spec_wgsl_text, arrayed_identifier_text, arrayed_identifiers_text,
    dims_text, dims_wgsl_text, fields_text, interpolation_qualifier_text, is_float_type,
    layout_qualifier_spec_text, layout_qualifier_text, layout_specs_text, non_array_text,
    precision_qualifier_text, qualifier_specs_text, storage_qualifier_text,
    struct_field_text, struct_non_declaration_text, subroutine_text, type_names_text,
    type_qualifier_spec_text, type_qualifier_text, type_specifier_text, wf_field,
    wf_non_array, wf_qualifier_spec, wf_struct, wf_type_qualifier, wf_type_specifier,
    converts_to_float, declarator_text, function_prototype_text, initializer_text,
    initializers_text, parameter_text, parameters_text, wf_initializer, wf_parameter,
    wf_prototype, path_text, int_as_float_text, block_fields_text, block_text,
    declaration_tail_text, declaration_text, globals_text, init_declarator_list_text,
    single_declaration_no_type_text, single_declaration_text, wf_declaration,
    wf_init_declarator_list, wf_opt_qualifier, wf_single_declaration,
    single_declaration_init_text, single_declaration_name_text, case_label_text,
    compound_depth, compound_statement_text, condition_text, expression_statement_text,
    for_init_statement_text, for_init_type, for_rest_statement_text, function_definition_text,
    iteration_depth, iteration_statement_text, jump_statement_text, selection_depth,
    selection_rest_depth, selection_rest_text, selection_statement_text,
    simple_statement_depth, simple_statement_text, statement_depth, statement_text,
    statements_depth, statements_text, switch_depth, switch_statement_text, wf_compound,
    wf_condition, wf_for_init, wf_for_rest, wf_iteration, wf_selection, wf_selection_rest,
    wf_simple_statement, wf_statement, wf_switch, external_declaration_text,
    external_declarations_text, preprocessor_define_text, preprocessor_extension_text,
    preprocessor_line_text, preprocessor_text, preprocessor_version_text, raw_identifiers_text,
    translation_unit_text, wf_external_declaration, wf_translation_unit,
};

verus! {

/// Calls itertools' `Itertools::permutations` on the characters of `items`:
/// the result lists every `k`-permutation of `items` (the elements at `k`
/// pairwise distinct positions, in the order of those positions), and
/// nothing else. The order of the list and how often a sequence recurs
/// (when `items` holds a character twice) are left unstated.
#[verifier::external_body]
fn permutations_of(items: Vec<char>, k: usize) -> (r: Vec<Vec<char>>)
    ensures
        forall|i: int| 0 <= i < r.len() ==> is_k_permutation(items@, k as nat, #[trigger] r[i]@),
        forall|p: Seq<char>|
            is_k_permutation(items@, k as nat, p) ==> exists|i: int|
                0 <= i < r.len() && #[trigger] r[i]@ == p,
{
    items.into_iter().permutations(k).collect()
}

fn chars_eq(a: &Vec<char>, b: &Vec<char>) -> (r: bool)
    ensures
        r == (a@ == b@),
{
    if a.len() != b.len() {
        return false;
    }
    let mut i: usize = 0;
    while i < a.len()
        invariant
            a.len() == b.len(),
            i <= a.len(),
            forall|j: int| 0 <= j < i ==> a@[j] == b@[j],
        decreases a.len() - i,
    {
        if a[i] != b[i] {
            return false;
        }
        i = i + 1;
    }
    assert(a@ =~= b@);
    true
}

/// Appends `i` tab characters (none when `i` is not positive).
pub fn indent(f: &mut String, i: i32)
    ensures
        final(f)@ == old(f)@ + indent_text(i as int),
{
    let ghost start = f@;
    let mut k: i32 = 0;
    while k < i
        invariant
            0 <= k,
            i > 0 ==> k <= i,
            i <= 0 ==> k == 0,
            f@ == start + indent_text(k as int),
        decreases i - k,
    {
        f.append("\t");
        proof {
            reveal_strlit("\t");
        }
        assert(indent_text(k + 1) =~= indent_text(k as int) + "\t"@);
        k = k + 1;
    }
    assert(indent_text(k as int) =~= indent_text(i as int));
}

/// The WGSL name of a GLSL built-in function: `smoothstep` becomes
/// `smoothStep`; every other name stays as it is.
pub fn convert_builtin_functions(f: &str) -> (r: &str)
    ensures
        r@ == builtin_name(f@),
{
    if str_eq(f, "smoothstep") {
        "smoothStep"
    } else {
        f
    }
}

/// Whether `ty` names a WGSL type whose components are 32-bit floats.
pub fn is_float_str(ty: &str) -> (r: bool)
    ensures
        r == is_float_name(ty@),
{
    str_eq(ty, "f32") || str_eq(ty, "vec2<f32>") || str_eq(ty, "vec3<f32>") || str_eq(
        ty,
        "vec4<f32>",
    ) || str_eq(ty, "mat2x2<f32>") || str_eq(ty, "mat3x3<f32>") || str_eq(ty, "mat4x4<f32>")
        || str_eq(ty, "mat2x3<f32>") || str_eq(ty, "mat2x4<f32>") || str_eq(ty, "mat3x2<f32>")
        || str_eq(ty, "mat3x4<f32>") || str_eq(ty, "mat4x2<f32>") || str_eq(ty, "mat4x3<f32>")
}

/// Whether `s` is one of the `num`-permutations of the characters of `inst`.
pub fn is_instance_of_swizzle(s: &str, inst: &str, num: usize) -> (r: bool)
    ensures
        r == is_k_permutation(inst@, num as nat, s@),
{
    let target = to_chars(s);
    let items = to_chars(inst);
    let perms = permutations_of(items, num);
    let mut i: usize = 0;
    while i < perms.len()
        invariant
            i <= perms.len(),
            target@ == s@,
            forall|j: int|
                0 <= j < perms.len() ==> is_k_permutation(inst@, num as nat, #[trigger] perms[j]@),
            forall|p: Seq<char>|
                is_k_permutation(inst@, num as nat, p) ==> exists|j: int|
                    0 <= j < perms.len() && #[trigger] perms[j]@ == p,
            forall|j: int| 0 <= j < i ==> perms[j]@ != s@,
        decreases perms.len() - i,
    {
        if chars_eq(&perms[i], &target) {
            return true;
        }
        i = i + 1;
    }
    false
}

/// Whether `s` names two to four distinct components of a vector, all by
/// their `xyzw` names or all by their `rgba` names.
pub fn is_swizzle(s: &str) -> (r: bool)
    ensures
        r == is_swizzle_text(s@),
{
    let xyzw2: bool = is_instance_of_swizzle(s, "xyzw", 2);
    let xyzw3: bool = is_instance_of_swizzle(s, "xyzw", 3);
    let xyzw4: bool = is_instance_of_swizzle(s, "xyzw", 4);
    let rgba2: bool = is_instance_of_swizzle(s, "rgba", 2);
    let rgba3: bool = is_instance_of_swizzle(s, "rgba", 3);
    let rgba4: bool = is_instance_of_swizzle(s, "rgba", 4);
    xyzw2 || xyzw3 || xyzw4 || rgba2 || rgba3 || rgba4
}

impl syntax::Expr {
    /// The binding strength of the expression, for placing parentheses.
    pub fn precedence(&self) -> (r: u32)
        ensures
            r as int == expr_prec(*self),
    {
        match self {
            syntax::Expr::Variable(_)
            | syntax::Expr::IntConst(_)
            | syntax::Expr::UIntConst(_)
            | syntax::Expr::BoolConst(_)
            | syntax::Expr::FloatConst(_)
            | syntax::Expr::DoubleConst(_) => 0,
            syntax::Expr::Unary(op, _) => op.precedence(),
            syntax::Expr::Binary(op, _, _) => op.precedence(),
            syntax::Expr::Ternary(_, _, _) | syntax::Expr::TernaryWGSL(_, _, _, _) => 15,
            syntax::Expr::Assignment(_, op, _) => op.precedence(),
            syntax::Expr::Bracket(_, _)
            | syntax::Expr::FunCall(_, _)
            | syntax::Expr::Dot(_, _)
            | syntax::Expr::PostInc(_)
            | syntax::Expr::PostDec(_) => 2,
            syntax::Expr::Comma(_, _) => 17,
        }
    }
}

impl syntax::UnaryOp {
    /// The binding strength of every unary operator.
    pub fn precedence(&self) -> (r: u32)
        ensures
            r == 3,
    {
        3
    }
}

impl syntax::BinaryOp {
    /// The binding strength of the operator.
    pub fn precedence(&self) -> (r: u32)
        ensures
            r as int == binary_prec(*self),
    {
        match self {
            syntax::BinaryOp::Mult | syntax::BinaryOp::Div | syntax::BinaryOp::Mod => 4,
            syntax::BinaryOp::Add | syntax::BinaryOp::Sub => 5,
            syntax::BinaryOp::LShift | syntax::BinaryOp::RShift => 6,
            syntax::BinaryOp::LT
            | syntax::BinaryOp::GT
            | syntax::BinaryOp::LTE
            | syntax::BinaryOp::GTE => 7,
            syntax::BinaryOp::Equal | syntax::BinaryOp::NonEqual => 8,
            syntax::BinaryOp::BitAnd => 9,
            syntax::BinaryOp::BitXor => 10,
            syntax::BinaryOp::BitOr => 11,
            syntax::BinaryOp::And => 12,
            syntax::BinaryOp::Xor => 13,
            syntax::BinaryOp::Or => 14,
        }
    }
}

impl syntax::AssignmentOp {
    /// The binding strength of every assignment operator.
    pub fn precedence(&self) -> (r: u32)
        ensures
            r == 16,
    {
        16
    }
}

/// Appends the identifier, with built-in function names translated.
pub fn show_identifier(f: &mut String, i: &syntax::Identifier)
    ensures
        final(f)@ == old(f)@ + identifier_text(*i),
{
    let new_ident = convert_builtin_functions(i.0.as_str());
    f.append(new_ident);
}

/// Appends the type name as it is.
pub fn show_type_name(f: &mut String, t: &syntax::TypeName)
    ensures
        final(f)@ == old(f)@ + t.0@,
{
    f.append(t.0.as_str());
}

/// Appends the binary operator with a space on each side.
pub fn show_binary_op(f: &mut String, op: &syntax::BinaryOp)
    ensures
        final(f)@ == old(f)@ + binary_op_text(*op),
{
    match op {
        syntax::BinaryOp::Or => f.append(" || "),
        syntax::BinaryOp::Xor => f.append(" ^^ "),
        syntax::BinaryOp::And => f.append(" && "),
        syntax::BinaryOp::BitOr => f.append(" | "),
        syntax::BinaryOp::BitXor => f.append(" ^ "),
        syntax::BinaryOp::BitAnd => f.append(" & "),
        syntax::BinaryOp::Equal => f.append(" == "),
        syntax::BinaryOp::NonEqual => f.append(" != "),
        syntax::BinaryOp::LT => f.append(" < "),
        syntax::BinaryOp::GT => f.append(" > "),
        syntax::BinaryOp::LTE => f.append(" <= "),
        syntax::BinaryOp::GTE => f.append(" >= "),
        syntax::BinaryOp::LShift => f.append(" << "),
        syntax::BinaryOp::RShift => f.append(" >> "),
        syntax::BinaryOp::Add => f.append(" + "),
        syntax::BinaryOp::Sub => f.append(" - "),
        syntax::BinaryOp::Mult => f.append(" * "),
        syntax::BinaryOp::Div => f.append(" / "),
        syntax::BinaryOp::Mod => f.append(" % "),
    }
}

/// Appends the operator of a compound assignment.
pub fn show_assignment_op(f: &mut String, op: &syntax::AssignmentOp)
    ensures
        final(f)@ == old(f)@ + assignment_op_text(*op),
{
    match op {
        syntax::AssignmentOp::Equal => f.append("="),
        syntax::AssignmentOp::Mult => f.append("*"),
        syntax::AssignmentOp::Div => f.append("/"),
        syntax::AssignmentOp::Mod => f.append("%"),
        syntax::AssignmentOp::Add => f.append("+"),
        syntax::AssignmentOp::Sub => f.append("-"),
        syntax::AssignmentOp::LShift => f.append("<<"),
        syntax::AssignmentOp::RShift => f.append(">>"),
        syntax::AssignmentOp::And => f.append("&"),
        syntax::AssignmentOp::Xor => f.append("^"),
        syntax::AssignmentOp::Or => f.append("|"),
    }
}

/// Appends `e`, printed in mode `m` (see `mode_text`), in parentheses
/// unless `bare` holds.
fn show_operand(f: &mut String, e: &syntax::Expr, m: u8, bare: bool)
    ensures
        final(f)@ == old(f)@ + (if bare {
            mode_text(*e, m as nat)
        } else {
            "("@ + mode_text(*e, m as nat) + ")"@
        }),
    decreases e, 4nat,
{
    if bare {
        show_expr_m(f, e, m);
    } else {
        f.append("(");
        show_expr_m(f, e, m);
        f.append(")");
    }
}

#[verifier::spinoff_prover]
#[verifier::rlimit(40)]
fn show_unary_expr(f: &mut String, expr: &syntax::Expr, m: u8)
    requires
        expr is Unary,
    ensures
        final(f)@ == old(f)@ + mode_text(*expr, m as nat),
    decreases expr, 2nat,
{
    if let syntax::Expr::Unary(op, x) = expr {
        match op {
            syntax::UnaryOp::Inc => {
                f.append(" = ");
                show_expr_m(f, x, 0);
                f.append(" + 1");
            },
            syntax::UnaryOp::Dec => {
                f.append(" = ");
                show_expr_m(f, x, 0);
                f.append(" - 1");
            },
            syntax::UnaryOp::Add => f.append("+"),
            syntax::UnaryOp::Minus => f.append("-"),
            syntax::UnaryOp::Not => f.append("!"),
            syntax::UnaryOp::Complement => f.append("~"),
        }
        let inner_mode: u8 = if *op == syntax::UnaryOp::Minus {
            m
        } else {
            0
        };
        let doubled = match &**x {
            syntax::Expr::Unary(eop, _) => *eop == *op && (*eop == syntax::UnaryOp::Add || *eop
                == syntax::UnaryOp::Minus),
            _ => false,
        };
        let bare = !(x.precedence() > 3 || doubled);
        show_operand(f, x, inner_mode, bare);
    }
}

/// For a swizzle target, appends the copy of the selected components into a
/// fresh variable, and says that it did.
#[verifier::spinoff_prover]
#[verifier::rlimit(40)]
fn show_swizzle_head(f: &mut String, v: &syntax::Expr) -> (swizzled: bool)
    ensures
        swizzled == is_swizzle_target(*v),
        swizzled ==> final(f)@ == old(f)@ + assignment_head(*v, Seq::empty()),
        !swizzled ==> final(f)@ == old(f)@,
{
    if let syntax::Expr::Dot(left, right) = v {
        if is_swizzle(right.0.as_str()) {
            let mut left_variable: &str = "variable_name";
            if let syntax::Expr::Variable(i) = &**left {
                left_variable = i.0.as_str();
            }
            let swizzle = right.0.as_str();
            f.append("var ");
            f.append(left_variable);
            f.append(swizzle);
            f.append(" = ");
            f.append(left_variable);
            f.append(".");
            f.append(swizzle);
            f.append(";\n");
            indent(f, 1);
            f.append(left_variable);
            f.append(swizzle);
            return true;
        }
    }
    false
}

/// The name of the `k`-th component of a vector.
fn position_char(k: usize) -> (c: char)
    ensures
        c == position_letter(k as int),
{
    if k == 0 {
        'x'
    } else if k == 1 {
        'y'
    } else if k == 2 {
        'z'
    } else {
        'w'
    }
}

/// Appends the per-component assignments that follow an assignment to a
/// swizzle target.
fn show_swizzle_lines(f: &mut String, v: &syntax::Expr)
    requires
        is_swizzle_target(*v),
    ensures
        final(f)@ == old(f)@ + swizzle_lines(swizzle_var(*v), swizzle_name(*v), swizzle_name(*v)),
{
    if let syntax::Expr::Dot(left, right) = v {
        let mut left_variable: &str = "variable_name";
        if let syntax::Expr::Variable(i) = &**left {
            left_variable = i.0.as_str();
        }
        let swizzle = right.0.as_str();
        let ghost before = f@;
        let chars = to_chars(swizzle);
        let mut k: usize = 0;
        while k < chars.len()
            invariant
                k <= chars.len(),
                chars@ == swizzle@,
                f@ == before + swizzle_lines(left_variable@, swizzle@, chars@.take(k as int)),
            decreases chars.len() - k,
        {
            f.append(";\n");
            indent(f, 1);
            f.append(left_variable);
            f.append(".");
            push_char(f, chars[k]);
            f.append(" = ");
            f.append(left_variable);
            f.append(swizzle);
            f.append(".");
            push_char(f, position_char(k));
            assert(chars@.take(k + 1).drop_last() =~= chars@.take(k as int));
            k = k + 1;
        }
        assert(chars@.take(chars.len() as int) =~= chars@);
    }
}

#[verifier::spinoff_prover]
#[verifier::rlimit(100)]
fn show_assignment_expr(f: &mut String, expr: &syntax::Expr, m: u8)
    requires
        expr is Assignment,
    ensures
        final(f)@ == old(f)@ + mode_text(*expr, m as nat),
    decreases expr, 2nat,
{
    if let syntax::Expr::Assignment(v, op, e) = expr {
        let ghost start = f@;
        let ghost vt = expr_text(**v, false);
        let swizzled = show_swizzle_head(f, v);
        if !swizzled {
            show_operand(f, v, 0, v.precedence() < op.precedence());
        }
        assert(f@ == start + assignment_head(**v, vt));
        f.append(" ");
        let ghost mid = f@;
        let compound = match op {
            syntax::AssignmentOp::Equal => false,
            _ => true,
        };
        if compound {
            f.append("= ");
            show_expr_m(f, v, 0);
            f.append(" ");
            show_assignment_op(f, op);
            f.append(" ");
            f.append("(");
        } else {
            f.append("= ");
        }
        assert(f@ == mid + assignment_op_part(*op, vt));
        show_operand(f, e, m, e.precedence() <= op.precedence());
        if compound {
            f.append(")");
        }
        if swizzled {
            show_swizzle_lines(f, v);
        }
        assert(f@ == start + assignment_text(
            **v,
            vt,
            *op,
            mode_text(**e, m as nat),
            expr_prec(**e),
        ));
    }
}

#[verifier::loop_isolation(false)]
#[verifier::spinoff_prover]
#[verifier::rlimit(40)]
fn show_bracket_expr(f: &mut String, expr: &syntax::Expr)
    requires
        expr is Bracket,
    ensures
        final(f)@ == old(f)@ + expr_text(*expr, false),
    decreases expr, 2nat,
{
    if let syntax::Expr::Bracket(x, a) = expr {
        show_operand(f, x, 0, x.precedence() <= 2);
        let ghost start = f@;
        let mut k: usize = 0;
        while k < a.dimensions.len()
            invariant
                k <= a.dimensions.len(),
                f@ == start + dims_text(a.dimensions@.take(k as int)),
            decreases a.dimensions.len() - k,
        {
            match &a.dimensions[k] {
                syntax::ArraySpecifierDimension::Unsized => f.append("[]"),
                syntax::ArraySpecifierDimension::ExplicitlySized(e2) => {
                    f.append("[");
                    show_expr_m(f, e2, 0);
                    f.append("]");
                },
            }
            assert(a.dimensions@.take(k + 1).drop_last() =~= a.dimensions@.take(k as int));
            k = k + 1;
        }
        assert(a.dimensions@.take(a.dimensions.len() as int) =~= a.dimensions@);
    }
}

/// Appends a call argument printed in mode `m`: in a vector value, an
/// integer constant is written as a vector of that float.
fn show_argument(f: &mut String, e: &syntax::Expr, m: u8)
    ensures
        final(f)@ == old(f)@ + (if m >= 2 {
            match *e {
                syntax::Expr::IntConst(x) => float_vector_text(m as nat) + paren(
                    int_as_float_text(x as int),
                ),
                syntax::Expr::UIntConst(x) => float_vector_text(m as nat) + paren(
                    int_as_float_text(x as int),
                ),
                _ => mode_text(*e, m as nat),
            }
        } else {
            mode_text(*e, m as nat)
        }),
    decreases e, 4nat,
{
    let splat_int: Option<i64> = if m >= 2 {
        match e {
            syntax::Expr::IntConst(x) => Some(*x as i64),
            syntax::Expr::UIntConst(x) => Some(*x as i64),
            _ => None,
        }
    } else {
        None
    };
    match splat_int {
        Some(x) => {
            if m == 2 {
                f.append("vec2<f32>");
            } else if m == 3 {
                f.append("vec3<f32>");
            } else {
                f.append("vec4<f32>");
            }
            f.append("(");
            write_int(f, x);
            f.append(".");
            f.append(")");
        },
        None => show_expr_m(f, e, m),
    }
}

#[verifier::loop_isolation(false)]
#[verifier::spinoff_prover]
#[verifier::rlimit(60)]
fn show_fun_call_expr(f: &mut String, expr: &syntax::Expr, m: u8)
    requires
        expr is FunCall,
    ensures
        final(f)@ == old(f)@ + mode_text(*expr, m as nat),
    decreases expr, 2nat,
{
    if let syntax::Expr::FunCall(fun, args) = expr {
        let mut am: u8 = m;
        match fun {
            syntax::FunIdentifier::Identifier(n) => {
                if is_float_str(n.0.as_str()) {
                    am = 1;
                }
                show_identifier(f, n);
            },
            syntax::FunIdentifier::Expr(e) => show_expr_m(f, e, 0),
        }
        f.append("(");
        let ghost before = f@;
        let mut k: usize = 0;
        while k < args.len()
            invariant
                k <= args.len(),
                f@ == before + mode_args_text(args@.take(k as int), am as nat),
            decreases args.len() - k,
        {
            if k > 0 {
                f.append(", ");
            }
            show_argument(f, &args[k], am);
            assert(args@.take(k + 1).drop_last() =~= args@.take(k as int));
            k = k + 1;
        }
        assert(args@.take(args.len() as int) =~= args@);
        f.append(")");
    }
}

/// Appends the expression printed in mode `m` (see `mode_text`).
#[verifier::spinoff_prover]
#[verifier::rlimit(60)]
fn show_expr_m(f: &mut String, expr: &syntax::Expr, m: u8)
    ensures
        final(f)@ == old(f)@ + mode_text(*expr, m as nat),
    decreases expr, 3nat,
{
    match expr {
        syntax::Expr::Variable(i) => show_identifier(f, i),
        syntax::Expr::IntConst(x) => {
            write_int(f, *x as i64);
            if m >= 1 {
                push_char(f, '.');
                proof { reveal_strlit("."); }
            }
        },
        syntax::Expr::UIntConst(x) => {
            write_int(f, *x as i64);
            if m >= 1 {
                push_char(f, '.');
                proof { reveal_strlit("."); }
            } else {
                push_char(f, 'u');
                proof { reveal_strlit("u"); }
            }
        },
        syntax::Expr::BoolConst(b) => {
            if *b {
                f.append("true");
            } else {
                f.append("false");
            }
        },
        syntax::Expr::FloatConst(x) => f.append(x.as_str()),
        syntax::Expr::DoubleConst(x) => f.append(x.as_str()),
        syntax::Expr::Unary(_, _) => show_unary_expr(f, expr, m),
        syntax::Expr::Binary(op, l, r) => {
            show_operand(f, l, 0, l.precedence() <= op.precedence());
            show_binary_op(f, op);
            show_operand(f, r, m, r.precedence() < op.precedence());
        },
        syntax::Expr::Ternary(c, s, e) => {
            f.append("if (");
            show_operand(f, c, 0, c.precedence() < 15);
            f.append(") { ");
            show_expr_m(f, s, 0);
            f.append("; } else { ");
            show_operand(f, e, 0, e.precedence() <= 15);
            f.append("; }");
        },
        syntax::Expr::TernaryWGSL(i, c, s, e) => {
            f.append("if (");
            show_operand(f, c, 0, c.precedence() < 15);
            f.append(") { ");
            f.append(i.0.as_str());
            f.append(" = ");
            show_expr_m(f, s, 0);
            f.append("; } else { ");
            f.append(i.0.as_str());
            f.append(" = ");
            show_operand(f, e, 0, e.precedence() <= 15);
            f.append("; }");
        },
        syntax::Expr::Assignment(_, _, _) => show_assignment_expr(f, expr, m),
        syntax::Expr::Bracket(_, _) => show_bracket_expr(f, expr),
        syntax::Expr::FunCall(_, _) => show_fun_call_expr(f, expr, m),
        syntax::Expr::Dot(e, i) => {
            show_operand(f, e, 0, e.precedence() <= 2);
            f.append(".");
            show_identifier(f, i);
        },
        syntax::Expr::PostInc(e) => {
            show_operand(f, e, 0, e.precedence() < 2);
            f.append(" = ");
            show_expr_m(f, e, 0);
            f.append(" + 1");
        },
        syntax::Expr::PostDec(e) => {
            show_operand(f, e, 0, e.precedence() < 2);
            f.append(" = ");
            show_expr_m(f, e, 0);
            f.append(" - 1");
        },
        syntax::Expr::Comma(a, b) => {
            show_operand(f, a, 0, a.precedence() <= 17);
            f.append(", ");
            show_operand(f, b, 0, b.precedence() < 17);
        },
    }
}

/// Appends the expression; with `as_float`, as `convert_to_float` with a
/// float type would leave it.
fn show_expr_as(f: &mut String, expr: &syntax::Expr, as_float: bool)
    ensures
        final(f)@ == old(f)@ + expr_text(*expr, as_float),
{
    let m: u8 = if as_float {
        1
    } else {
        0
    };
    show_expr_m(f, expr, m);
}

/// Appends the expression.
pub fn show_expr(f: &mut String, expr: &syntax::Expr)
    ensures
        final(f)@ == old(f)@ + expr_text(*expr, false),
{
    show_expr_m(f, expr, 0);
}

/// Appends the WGSL name of the type.
pub fn show_type_specifier_non_array(f: &mut String, t: &TypeSpecifierNonArray)
    requires
        wf_non_array(*t),
    ensures
        final(f)@ == old(f)@ + non_array_text(*t),
    decreases t,
{
    match t {
        TypeSpecifierNonArray::Void => f.append("()"),
        TypeSpecifierNonArray::Bool => f.append("bool"),
        TypeSpecifierNonArray::Int => f.append("i32"),
        TypeSpecifierNonArray::UInt => f.append("u32"),
        TypeSpecifierNonArray::Float => f.append("f32"),
        TypeSpecifierNonArray::Double => f.append("double"),
        TypeSpecifierNonArray::Vec2 => f.append("vec2<f32>"),
        TypeSpecifierNonArray::Vec3 => f.append("vec3<f32>"),
        TypeSpecifierNonArray::Vec4 => f.append("vec4<f32>"),
        TypeSpecifierNonArray::DVec2 => f.append("no double in wgsl"),
        TypeSpecifierNonArray::DVec3 => f.append("no double in wgsl"),
        TypeSpecifierNonArray::DVec4 => f.append("no double in wgsl"),
        TypeSpecifierNonArray::BVec2 => f.append("vec2<bool>"),
        TypeSpecifierNonArray::BVec3 => f.append("vec3<bool>"),
        TypeSpecifierNonArray::BVec4 => f.append("vec4<bool>"),
        TypeSpecifierNonArray::IVec2 => f.append("vec2<i32>"),
        TypeSpecifierNonArray::IVec3 => f.append("vec3<i32>"),
        TypeSpecifierNonArray::IVec4 => f.append("vec4<i32>"),
        TypeSpecifierNonArray::UVec2 => f.append("vec2<u32>"),
        TypeSpecifierNonArray::UVec3 => f.append("vec3<u32>"),
        TypeSpecifierNonArray::UVec4 => f.append("vec4<u32>"),
        TypeSpecifierNonArray::Mat2 => f.append("mat2x2<f32>"),
        TypeSpecifierNonArray::Mat3 => f.append("mat3x3<f32>"),
        TypeSpecifierNonArray::Mat4 => f.append("mat4x4<f32>"),
        TypeSpecifierNonArray::Mat23 => f.append("mat2x3<f32>"),
        TypeSpecifierNonArray::Mat24 => f.append("mat2x4<f32>"),
        TypeSpecifierNonArray::Mat32 => f.append("mat3x2<f32>"),
        TypeSpecifierNonArray::Mat34 => f.append("mat3x4<f32>"),
        TypeSpecifierNonArray::Mat42 => f.append("mat4x2<f32>"),
        TypeSpecifierNonArray::Mat43 => f.append("mat4x3<f32>"),
        TypeSpecifierNonArray::DMat2 => f.append("dmat2"),
        TypeSpecifierNonArray::DMat3 => f.append("dmat3"),
        TypeSpecifierNonArray::DMat4 => f.append("dmat4"),
        TypeSpecifierNonArray::DMat23 => f.append("dmat2x3"),
        TypeSpecifierNonArray::DMat24 => f.append("dmat2x4"),
        TypeSpecifierNonArray::DMat32 => f.append("dmat3x2"),
        TypeSpecifierNonArray::DMat34 => f.append("dmat3x4"),
        TypeSpecifierNonArray::DMat42 => f.append("dmat4x2"),
        TypeSpecifierNonArray::DMat43 => f.append("dmat4x3"),
        TypeSpecifierNonArray::Sampler1D => f.append("sampler1D"),
        TypeSpecifierNonArray::Image1D => f.append("image1D"),
        TypeSpecifierNonArray::Sampler2D => f.append("sampler2D"),
        TypeSpecifierNonArray::Image2D => f.append("image2D"),
        TypeSpecifierNonArray::Sampler3D => f.append("sampler3D"),
        TypeSpecifierNonArray::Image3D => f.append("image3D"),
        TypeSpecifierNonArray::SamplerCube => f.append("samplerCube"),
        TypeSpecifierNonArray::ImageCube => f.append("imageCube"),
        TypeSpecifierNonArray::Sampler2DRect => f.append("sampler2DRect"),
        TypeSpecifierNonArray::Image2DRect => f.append("image2DRect"),
        TypeSpecifierNonArray::Sampler1DArray => f.append("sampler1DArray"),
        TypeSpecifierNonArray::Image1DArray => f.append("image1DArray"),
        TypeSpecifierNonArray::Sampler2DArray => f.append("sampler2DArray"),
        TypeSpecifierNonArray::Image2DArray => f.append("image2DArray"),
        TypeSpecifierNonArray::SamplerBuffer => f.append("samplerBuffer"),
        TypeSpecifierNonArray::ImageBuffer => f.append("imageBuffer"),
        TypeSpecifierNonArray::Sampler2DMS => f.append("sampler2DMS"),
        TypeSpecifierNonArray::Image2DMS => f.append("image2DMS"),
        TypeSpecifierNonArray::Sampler2DMSArray => f.append("sampler2DMSArray"),
        TypeSpecifierNonArray::Image2DMSArray => f.append("image2DMSArray"),
        TypeSpecifierNonArray::SamplerCubeArray => f.append("samplerCubeArray"),
        TypeSpecifierNonArray::ImageCubeArray => f.append("imageCubeArray"),
        TypeSpecifierNonArray::Sampler1DShadow => f.append("sampler1DShadow"),
        TypeSpecifierNonArray::Sampler2DShadow => f.append("sampler2DShadow"),
        TypeSpecifierNonArray::Sampler2DRectShadow => f.append("sampler2DRectShadow"),
        TypeSpecifierNonArray::Sampler1DArrayShadow => f.append("sampler1DArrayShadow"),
        TypeSpecifierNonArray::Sampler2DArrayShadow => f.append("sampler2DArrayShadow"),
        TypeSpecifierNonArray::SamplerCubeShadow => f.append("samplerCubeShadow"),
        TypeSpecifierNonArray::SamplerCubeArrayShadow => f.append("samplerCubeArrayShadow"),
        TypeSpecifierNonArray::ISampler1D => f.append("isampler1D"),
        TypeSpecifierNonArray::IImage1D => f.append("iimage1D"),
        TypeSpecifierNonArray::ISampler2D => f.append("isampler2D"),
        TypeSpecifierNonArray::IImage2D => f.append("iimage2D"),
        TypeSpecifierNonArray::ISampler3D => f.append("isampler3D"),
        TypeSpecifierNonArray::IImage3D => f.append("iimage3D"),
        TypeSpecifierNonArray::ISamplerCube => f.append("isamplerCube"),
        TypeSpecifierNonArray::IImageCube => f.append("iimageCube"),
        TypeSpecifierNonArray::ISampler2DRect => f.append("isampler2DRect"),
        TypeSpecifierNonArray::IImage2DRect => f.append("iimage2DRect"),
        TypeSpecifierNonArray::ISampler1DArray => f.append("isampler1DArray"),
        TypeSpecifierNonArray::IImage1DArray => f.append("iimage1DArray"),
        TypeSpecifierNonArray::ISampler2DArray => f.append("isampler2DArray"),
        TypeSpecifierNonArray::IImage2DArray => f.append("iimage2DArray"),
        TypeSpecifierNonArray::ISamplerBuffer => f.append("isamplerBuffer"),
        TypeSpecifierNonArray::IImageBuffer => f.append("iimageBuffer"),
        TypeSpecifierNonArray::ISampler2DMS => f.append("isampler2MS"),
        TypeSpecifierNonArray::IImage2DMS => f.append("iimage2DMS"),
        TypeSpecifierNonArray::ISampler2DMSArray => f.append("isampler2DMSArray"),
        TypeSpecifierNonArray::IImage2DMSArray => f.append("iimage2DMSArray"),
        TypeSpecifierNonArray::ISamplerCubeArray => f.append("isamplerCubeArray"),
        TypeSpecifierNonArray::IImageCubeArray => f.append("iimageCubeArray"),
        TypeSpecifierNonArray::AtomicUInt => f.append("atomic_uint"),
        TypeSpecifierNonArray::USampler1D => f.append("usampler1D"),
        TypeSpecifierNonArray::UImage1D => f.append("uimage1D"),
        TypeSpecifierNonArray::USampler2D => f.append("usampler2D"),
        TypeSpecifierNonArray::UImage2D => f.append("uimage2D"),
        TypeSpecifierNonArray::USampler3D => f.append("usampler3D"),
        TypeSpecifierNonArray::UImage3D => f.append("uimage3D"),
        TypeSpecifierNonArray::USamplerCube => f.append("usamplerCube"),
        TypeSpecifierNonArray::UImageCube => f.append("uimageCube"),
        TypeSpecifierNonArray::USampler2DRect => f.append("usampler2DRect"),
        TypeSpecifierNonArray::UImage2DRect => f.append("uimage2DRect"),
        TypeSpecifierNonArray::USampler1DArray => f.append("usampler1DArray"),
        TypeSpecifierNonArray::UImage1DArray => f.append("uimage1DArray"),
        TypeSpecifierNonArray::USampler2DArray => f.append("usampler2DArray"),
        TypeSpecifierNonArray::UImage2DArray => f.append("uimage2DArray"),
        TypeSpecifierNonArray::USamplerBuffer => f.append("usamplerBuffer"),
        TypeSpecifierNonArray::UImageBuffer => f.append("uimageBuffer"),
        TypeSpecifierNonArray::USampler2DMS => f.append("usampler2DMS"),
        TypeSpecifierNonArray::UImage2DMS => f.append("uimage2DMS"),
        TypeSpecifierNonArray::USampler2DMSArray => f.append("usamplerDMSArray"),
        TypeSpecifierNonArray::UImage2DMSArray => f.append("uimage2DMSArray"),
        TypeSpecifierNonArray::USamplerCubeArray => f.append("usamplerCubeArray"),
        TypeSpecifierNonArray::UImageCubeArray => f.append("uimageCubeArray"),
        TypeSpecifierNonArray::Struct(s) => show_struct_non_declaration(f, s, 0),
        TypeSpecifierNonArray::TypeName(tn) => show_type_name(f, tn),
    }
}

/// Whether the type has float components (32- or 64-bit).
pub fn is_float(ty: &TypeSpecifierNonArray) -> (r: bool)
    ensures
        r == is_float_type(*ty),
{
    match ty {
        TypeSpecifierNonArray::Float
        | TypeSpecifierNonArray::Double
        | TypeSpecifierNonArray::Vec2
        | TypeSpecifierNonArray::Vec3
        | TypeSpecifierNonArray::Vec4
        | TypeSpecifierNonArray::DVec2
        | TypeSpecifierNonArray::DVec3
        | TypeSpecifierNonArray::DVec4
        | TypeSpecifierNonArray::Mat2
        | TypeSpecifierNonArray::Mat3
        | TypeSpecifierNonArray::Mat4
        | TypeSpecifierNonArray::Mat23
        | TypeSpecifierNonArray::Mat24
        | TypeSpecifierNonArray::Mat32
        | TypeSpecifierNonArray::Mat34
        | TypeSpecifierNonArray::Mat42
        | TypeSpecifierNonArray::Mat43
        | TypeSpecifierNonArray::DMat2
        | TypeSpecifierNonArray::DMat3
        | TypeSpecifierNonArray::DMat4
        | TypeSpecifierNonArray::DMat23
        | TypeSpecifierNonArray::DMat24
        | TypeSpecifierNonArray::DMat32
        | TypeSpecifierNonArray::DMat34
        | TypeSpecifierNonArray::DMat42
        | TypeSpecifierNonArray::DMat43 => true,
        _ => false,
    }
}

/// Appends the type with its dimensions in GLSL form.
pub fn show_type_specifier(f: &mut String, t: &syntax::TypeSpecifier)
    requires
        wf_type_specifier(*t),
    ensures
        final(f)@ == old(f)@ + type_specifier_text(*t),
    decreases t,
{
    show_type_specifier_non_array(f, &t.ty);
    if let Some(arr_spec) = &t.array_specifier {
        show_array_spec(f, arr_spec);
    }
}

/// Appends ` -> ` and the type, as the return type of a function.
pub fn show_return_type(f: &mut String, t: &syntax::TypeSpecifier)
    requires
        wf_type_specifier(*t),
    ensures
        final(f)@ == old(f)@ + " -> "@ + type_specifier_text(*t),
{
    f.append(" -> ");
    show_type_specifier_non_array(f, &t.ty);
    if let Some(arr_spec) = &t.array_specifier {
        show_array_spec(f, arr_spec);
    }
}

/// Appends the type; its qualifiers are left out.
pub fn show_fully_specified_type(f: &mut String, t: &syntax::FullySpecifiedType)
    requires
        wf_type_specifier(t.ty),
    ensures
        final(f)@ == old(f)@ + type_specifier_text(t.ty),
{
    show_type_specifier(f, &t.ty);
}

/// Appends the struct type at indentation `i`.
#[verifier::spinoff_prover]
#[verifier::rlimit(40)]
pub fn show_struct_non_declaration(f: &mut String, s: &syntax::StructSpecifier, i: i32)
    requires
        wf_struct(*s),
        i < i32::MAX,
    ensures
        final(f)@ == old(f)@ + struct_non_declaration_text(*s, i as int),
    decreases s,
{
    f.append("struct ");
    if let Some(name) = &s.name {
        f.append(name.0.as_str());
        f.append(" ");
    }
    f.append("{\n");
    let ghost before = f@;
    let mut k: usize = 0;
    while k < s.fields.len()
        invariant
            k <= s.fields.len(),
            wf_struct(*s),
            i < i32::MAX,
            f@ == before + fields_text(s.fields@.take(k as int), i as int),
        decreases s.fields.len() - k,
    {
        show_struct_field(f, &s.fields[k], i);
        assert(s.fields@.take(k + 1).drop_last() =~= s.fields@.take(k as int));
        k = k + 1;
    }
    assert(s.fields@.take(s.fields.len() as int) =~= s.fields@);
    indent(f, i);
    f.append("}");
}

/// Appends the struct type followed by `;` and a newline.
pub fn show_struct(f: &mut String, s: &syntax::StructSpecifier, i: i32)
    requires
        wf_struct(*s),
        i < i32::MAX,
    ensures
        final(f)@ == old(f)@ + struct_non_declaration_text(*s, i as int) + ";\n"@,
{
    show_struct_non_declaration(f, s, i);
    f.append(";\n");
}

/// Appends one field line of a struct at indentation `i`.
#[verifier::spinoff_prover]
#[verifier::rlimit(40)]
pub fn show_struct_field(f: &mut String, field: &syntax::StructFieldSpecifier, i: i32)
    requires
        wf_field(*field),
        i < i32::MAX,
    ensures
        final(f)@ == old(f)@ + struct_field_text(*field, i as int),
    decreases field,
{
    indent(f, i + 1);
    show_arrayed_identifiers(f, &field.identifiers);
    if let Some(qual) = &field.qualifier {
        show_type_qualifier(f, qual);
        f.append(" ");
    }
    f.append(": ");
    show_type_specifier(f, &field.ty);
    f.append(";\n");
}

fn show_arrayed_identifiers(f: &mut String, ids: &Vec<syntax::ArrayedIdentifier>)
    ensures
        final(f)@ == old(f)@ + arrayed_identifiers_text(ids@),
{
    let ghost start = f@;
    let mut k: usize = 0;
    while k < ids.len()
        invariant
            k <= ids.len(),
            f@ == start + arrayed_identifiers_text(ids@.take(k as int)),
        decreases ids.len() - k,
    {
        if k > 0 {
            f.append(", ");
        }
        show_arrayed_identifier(f, &ids[k]);
        assert(ids@.take(k + 1).drop_last() =~= ids@.take(k as int));
        k = k + 1;
    }
    assert(ids@.take(ids.len() as int) =~= ids@);
}

/// Appends the dimensions in GLSL form: `[n]` or `[]` each.
pub fn show_array_spec(f: &mut String, a: &syntax::ArraySpecifier)
    ensures
        final(f)@ == old(f)@ + array_spec_text(*a),
{
    let ghost start = f@;
    let mut k: usize = 0;
    while k < a.dimensions.len()
        invariant
            k <= a.dimensions.len(),
            f@ == start + dims_text(a.dimensions@.take(k as int)),
        decreases a.dimensions.len() - k,
    {
        match &a.dimensions[k] {
            syntax::ArraySpecifierDimension::Unsized => f.append("[]"),
            syntax::ArraySpecifierDimension::ExplicitlySized(e) => {
                f.append("[");
                show_expr(f, e);
                f.append("]");
            },
        }
        assert(a.dimensions@.take(k + 1).drop_last() =~= a.dimensions@.take(k as int));
        k = k + 1;
    }
    assert(a.dimensions@.take(a.dimensions.len() as int) =~= a.dimensions@);
}

/// Appends the dimensions as WGSL array types of `t`: `array<t,n>` each.
pub fn show_array_spec_wgsl(
    f: &mut String,
    a: &syntax::ArraySpecifier,
    t: &TypeSpecifierNonArray,
)
    requires
        wf_non_array(*t),
    ensures
        final(f)@ == old(f)@ + array_spec_wgsl_text(*a, *t),
{
    let ghost start = f@;
    let mut k: usize = 0;
    while k < a.dimensions.len()
        invariant
            k <= a.dimensions.len(),
            wf_non_array(*t),
            f@ == start + dims_wgsl_text(a.dimensions@.take(k as int), non_array_text(*t)),
        decreases a.dimensions.len() - k,
    {
        match &a.dimensions[k] {
            syntax::ArraySpecifierDimension::Unsized => f.append("array<>"),
            syntax::ArraySpecifierDimension::ExplicitlySized(e) => {
                f.append("array<");
                show_type_specifier_non_array(f, t);
                f.append(",");
                show_expr(f, e);
                f.append(">");
            },
        }
        assert(a.dimensions@.take(k + 1).drop_last() =~= a.dimensions@.take(k as int));
        k = k + 1;
    }
    assert(a.dimensions@.take(a.dimensions.len() as int) =~= a.dimensions@);
}

/// Appends the dimensions as WGSL array types whose element is the
/// expression `e1`: `array<e1,n>` each.
pub fn show_array_spec_value_wgsl(f: &mut String, a: &syntax::ArraySpecifier, e1: &syntax::Expr)
    ensures
        final(f)@ == old(f)@ + dims_value_text(a.dimensions@, expr_text(*e1, false)),
{
    let ghost start = f@;
    let mut k: usize = 0;
    while k < a.dimensions.len()
        invariant
            k <= a.dimensions.len(),
            f@ == start + dims_value_text(a.dimensions@.take(k as int), expr_text(*e1, false)),
        decreases a.dimensions.len() - k,
    {
        match &a.dimensions[k] {
            syntax::ArraySpecifierDimension::Unsized => f.append("array<>"),
            syntax::ArraySpecifierDimension::ExplicitlySized(e2) => {
                f.append("array<");
                show_expr(f, e1);
                f.append(",");
                show_expr(f, e2);
                f.append(">");
            },
        }
        assert(a.dimensions@.take(k + 1).drop_last() =~= a.dimensions@.take(k as int));
        k = k + 1;
    }
    assert(a.dimensions@.take(a.dimensions.len() as int) =~= a.dimensions@);
}

/// Appends the name as it is, with its dimensions in GLSL form.
pub fn show_arrayed_identifier(f: &mut String, a: &syntax::ArrayedIdentifier)
    ensures
        final(f)@ == old(f)@ + arrayed_identifier_text(*a),
{
    f.append(a.ident.0.as_str());
    if let Some(arr_spec) = &a.array_spec {
        show_array_spec(f, arr_spec);
    }
}

/// Appends the qualifiers separated by spaces.
pub fn show_type_qualifier(f: &mut String, q: &syntax::TypeQualifier)
    requires
        wf_type_qualifier(*q),
    ensures
        final(f)@ == old(f)@ + type_qualifier_text(*q),
{
    let ghost start = f@;
    let mut k: usize = 0;
    while k < q.qualifiers.len()
        invariant
            k <= q.qualifiers.len(),
            wf_type_qualifier(*q),
            f@ == start + qualifier_specs_text(q.qualifiers@.take(k as int)),
        decreases q.qualifiers.len() - k,
    {
        if k > 0 {
            f.append(" ");
        }
        show_type_qualifier_spec(f, &q.qualifiers[k]);
        assert(q.qualifiers@.take(k + 1).drop_last() =~= q.qualifiers@.take(k as int));
        k = k + 1;
    }
    assert(q.qualifiers@.take(q.qualifiers.len() as int) =~= q.qualifiers@);
}

/// Appends one qualifier.
pub fn show_type_qualifier_spec(f: &mut String, q: &syntax::TypeQualifierSpec)
    requires
        wf_qualifier_spec(*q),
    ensures
        final(f)@ == old(f)@ + type_qualifier_spec_text(*q),
{
    match q {
        syntax::TypeQualifierSpec::Storage(s) => show_storage_qualifier(f, s),
        syntax::TypeQualifierSpec::Layout(l) => show_layout_qualifier(f, l),
        syntax::TypeQualifierSpec::Precision(p) => show_precision_qualifier(f, p),
        syntax::TypeQualifierSpec::Interpolation(i) => show_interpolation_qualifier(f, i),
        syntax::TypeQualifierSpec::Invariant => f.append("invariant"),
        syntax::TypeQualifierSpec::Precise => f.append("precise"),
    }
}

/// Appends the storage qualifier in WGSL form.
pub fn show_storage_qualifier(f: &mut String, q: &syntax::StorageQualifier)
    ensures
        final(f)@ == old(f)@ + storage_qualifier_text(*q),
{
    match q {
        syntax::StorageQualifier::Const => f.append("const"),
        syntax::StorageQualifier::InOut => f.append("inout "),
        syntax::StorageQualifier::In => f.append(""),
        syntax::StorageQualifier::Out => f.append(""),
        syntax::StorageQualifier::Centroid => f.append("centroid"),
        syntax::StorageQualifier::Patch => f.append("patch"),
        syntax::StorageQualifier::Sample => f.append("sample"),
        syntax::StorageQualifier::Uniform => {
            f.append("\n[[group(?), binding(?)]]\n");
            f.append("var<uniform>");
        },
        syntax::StorageQualifier::Attribute => f.append("attribute"),
        syntax::StorageQualifier::Varying => f.append("varying"),
        syntax::StorageQualifier::Buffer => f.append("buffer"),
        syntax::StorageQualifier::Shared => f.append("shared"),
        syntax::StorageQualifier::Coherent => f.append("coherent"),
        syntax::StorageQualifier::Volatile => f.append("volatile"),
        syntax::StorageQualifier::Restrict => f.append("restrict"),
        syntax::StorageQualifier::ReadOnly => f.append("readonly"),
        syntax::StorageQualifier::WriteOnly => f.append("writeonly"),
        syntax::StorageQualifier::Subroutine(n) => show_subroutine(f, n),
    }
}

/// Appends `subroutine`, with the type names in parentheses where there are
/// any.
pub fn show_subroutine(f: &mut String, types: &Vec<syntax::TypeName>)
    ensures
        final(f)@ == old(f)@ + subroutine_text(types@),
{
    f.append("subroutine");
    if types.len() > 0 {
        f.append("(");
        let ghost start = f@;
        let mut k: usize = 0;
        while k < types.len()
            invariant
                k <= types.len(),
                f@ == start + type_names_text(types@.take(k as int)),
            decreases types.len() - k,
        {
            if k > 0 {
                f.append(", ");
            }
            show_type_name(f, &types[k]);
            assert(types@.take(k + 1).drop_last() =~= types@.take(k as int));
            k = k + 1;
        }
        assert(types@.take(types.len() as int) =~= types@);
        f.append(")");
    }
}

/// Appends `layout (...)`.
pub fn show_layout_qualifier(f: &mut String, l: &syntax::LayoutQualifier)
    requires
        l.ids@.len() > 0,
    ensures
        final(f)@ == old(f)@ + layout_qualifier_text(*l),
{
    f.append("layout (");
    let ghost start = f@;
    let mut k: usize = 0;
    while k < l.ids.len()
        invariant
            k <= l.ids.len(),
            f@ == start + layout_specs_text(l.ids@.take(k as int)),
        decreases l.ids.len() - k,
    {
        if k > 0 {
            f.append(", ");
        }
        show_layout_qualifier_spec(f, &l.ids[k]);
        assert(l.ids@.take(k + 1).drop_last() =~= l.ids@.take(k as int));
        k = k + 1;
    }
    assert(l.ids@.take(l.ids.len() as int) =~= l.ids@);
    f.append(")");
}

/// Appends one layout entry.
pub fn show_layout_qualifier_spec(f: &mut String, l: &syntax::LayoutQualifierSpec)
    ensures
        final(f)@ == old(f)@ + layout_qualifier_spec_text(*l),
{
    match l {
        syntax::LayoutQualifierSpec::Identifier(i, Some(e)) => {
            f.append(i.0.as_str());
            f.append(" = ");
            show_expr(f, e);
        },
        syntax::LayoutQualifierSpec::Identifier(i, None) => show_identifier(f, i),
        syntax::LayoutQualifierSpec::Shared => f.append("shared"),
    }
}

/// Appends the precision qualifier.
pub fn show_precision_qualifier(f: &mut String, p: &syntax::PrecisionQualifier)
    ensures
        final(f)@ == old(f)@ + precision_qualifier_text(*p),
{
    match p {
        syntax::PrecisionQualifier::High => f.append("highp"),
        syntax::PrecisionQualifier::Medium => f.append("mediump"),
        syntax::PrecisionQualifier::Low => f.append("low"),
    }
}

/// Appends the interpolation qualifier.
pub fn show_interpolation_qualifier(f: &mut String, i: &syntax::InterpolationQualifier)
    ensures
        final(f)@ == old(f)@ + interpolation_qualifier_text(*i),
{
    match i {
        syntax::InterpolationQualifier::Smooth => f.append("smooth"),
        syntax::InterpolationQualifier::Flat => f.append("flat"),
        syntax::InterpolationQualifier::NoPerspective => f.append("noperspective"),
    }
}

fn convert_as(e: syntax::Expr, as_float: bool) -> (r: syntax::Expr)
    ensures
        converts_to_float(e, as_float, r),
    decreases e,
{
    match e {
        syntax::Expr::IntConst(x) => {
            if as_float {
                let mut s = String::new();
                write_int(&mut s, x as i64);
                push_char(&mut s, '.');
                proof { reveal_strlit("."); }
                assert(s@ =~= int_as_float_text(x as int));
                syntax::Expr::FloatConst(s)
            } else {
                syntax::Expr::IntConst(x)
            }
        },
        syntax::Expr::UIntConst(x) => {
            if as_float {
                let mut s = String::new();
                write_int(&mut s, x as i64);
                push_char(&mut s, '.');
                proof { reveal_strlit("."); }
                assert(s@ =~= int_as_float_text(x as int));
                syntax::Expr::FloatConst(s)
            } else {
                syntax::Expr::UIntConst(x)
            }
        },
        syntax::Expr::FunCall(fun, args) => {
            if as_float {
                let ghost args0 = args;
                let mut rest = args;
                let mut out: Vec<syntax::Expr> = Vec::new();
                while rest.len() > 0
                    invariant
                        e == syntax::Expr::FunCall(fun, args0),
                        out@.len() + rest@.len() == args0@.len(),
                        rest@ == args0@.skip(out@.len() as int),
                        forall|k: int|
                            0 <= k < out@.len() ==> converts_to_float(
                                #[trigger] args0@[k],
                                true,
                                out@[k],
                            ),
                    decreases rest.len(),
                {
                    let a = rest.remove(0);
                    proof {
                        assert(a == args0@[out@.len() as int]);
                        assert(decreases_to!(e => e->FunCall_1));
                        assert(decreases_to!(args0 => args0@));
                        assert(decreases_to!(args0@ => args0@[out@.len() as int]));
                    }
                    let c = convert_as(a, true);
                    out.push(c);
                    assert(rest@ =~= args0@.skip(out@.len() as int));
                }
                syntax::Expr::FunCall(fun, out)
            } else {
                syntax::Expr::FunCall(fun, args)
            }
        },
        syntax::Expr::Unary(op, x) => {
            if op == syntax::UnaryOp::Minus {
                syntax::Expr::Unary(op, Box::new(convert_as(*x, as_float)))
            } else {
                syntax::Expr::Unary(op, x)
            }
        },
        syntax::Expr::Binary(op, l, x) => syntax::Expr::Binary(
            op,
            l,
            Box::new(convert_as(*x, as_float)),
        ),
        syntax::Expr::Assignment(v, op, x) => syntax::Expr::Assignment(
            v,
            op,
            Box::new(convert_as(*x, as_float)),
        ),
        other => other,
    }
}

/// Converts integer constants in `e` to float constants where `ty` has
/// float components: see `converts_to_float` for where in `e` that happens.
pub fn convert_to_float(e: syntax::Expr, ty: &TypeSpecifierNonArray) -> (r: syntax::Expr)
    ensures
        converts_to_float(e, is_float_type(*ty), r),
{
    let fl = is_float(ty);
    convert_as(e, fl)
}

/// Appends the unary operator; the increment and decrement operators are
/// written as an assignment that repeats `e`.
pub fn show_unary_op(f: &mut String, op: &syntax::UnaryOp, e: &Box<syntax::Expr>)
    ensures
        final(f)@ == old(f)@ + unary_op_text(*op, expr_text(**e, false)),
{
    match op {
        syntax::UnaryOp::Inc => {
            f.append(" = ");
            show_expr(f, e);
            f.append(" + 1");
        },
        syntax::UnaryOp::Dec => {
            f.append(" = ");
            show_expr(f, e);
            f.append(" - 1");
        },
        syntax::UnaryOp::Add => f.append("+"),
        syntax::UnaryOp::Minus => f.append("-"),
        syntax::UnaryOp::Not => f.append("!"),
        syntax::UnaryOp::Complement => f.append("~"),
    }
}

/// Appends an include path: `<path>` or `"path"`.
pub fn show_path(f: &mut String, path: &syntax::Path)
    ensures
        final(f)@ == old(f)@ + path_text(*path),
{
    match path {
        syntax::Path::Absolute(s) => {
            f.append("<");
            f.append(s.as_str());
            f.append(">");
        },
        syntax::Path::Relative(s) => {
            f.append("\"");
            f.append(s.as_str());
            f.append("\"");
        },
    }
}

/// Appends what a call calls.
pub fn show_function_identifier(f: &mut String, i: &syntax::FunIdentifier)
    ensures
        final(f)@ == old(f)@ + match *i {
            syntax::FunIdentifier::Identifier(n) => identifier_text(n),
            syntax::FunIdentifier::Expr(e) => expr_text(*e, false),
        },
{
    match i {
        syntax::FunIdentifier::Identifier(n) => show_identifier(f, n),
        syntax::FunIdentifier::Expr(e) => show_expr(f, e),
    }
}

/// Appends the initializer of a variable of type `ty`.
#[verifier::spinoff_prover]
#[verifier::rlimit(40)]
pub fn show_initializer(f: &mut String, i: &syntax::Initializer, ty: &TypeSpecifierNonArray)
    requires
        wf_initializer(*i),
    ensures
        final(f)@ == old(f)@ + initializer_text(*i, *ty),
    decreases i,
{
    match i {
        syntax::Initializer::Simple(e) => {
            let m: u8 = match ty {
                TypeSpecifierNonArray::Vec2 => 2,
                TypeSpecifierNonArray::Vec3 => 3,
                TypeSpecifierNonArray::Vec4 => 4,
                _ => if is_float(ty) {
                    1
                } else {
                    0
                },
            };
            show_expr_m(f, e, m);
        },
        syntax::Initializer::List(list) => {
            f.append("{ ");
            let ghost start = f@;
            let mut k: usize = 0;
            while k < list.len()
                invariant
                    k <= list.len(),
                    wf_initializer(*i),
                    *i == syntax::Initializer::List(*list),
                    f@ == start + initializers_text(list@.take(k as int), *ty),
                decreases list.len() - k,
            {
                if k > 0 {
                    f.append(", ");
                }
                show_initializer(f, &list[k], ty);
                assert(list@.take(k + 1).drop_last() =~= list@.take(k as int));
                k = k + 1;
            }
            assert(list@.take(list.len() as int) =~= list@);
            f.append(" }");
        },
    }
}

/// Appends `fn name(parameters) -> type`.
#[verifier::spinoff_prover]
#[verifier::rlimit(40)]
pub fn show_function_prototype(f: &mut String, fp: &syntax::FunctionPrototype)
    requires
        wf_prototype(*fp),
    ensures
        final(f)@ == old(f)@ + function_prototype_text(*fp),
{
    f.append("fn ");
    show_identifier(f, &fp.name);
    f.append("(");
    let ghost before = f@;
    let mut k: usize = 0;
    while k < fp.parameters.len()
        invariant
            k <= fp.parameters.len(),
            wf_prototype(*fp),
            f@ == before + parameters_text(fp.parameters@.take(k as int)),
        decreases fp.parameters.len() - k,
    {
        if k > 0 {
            f.append(", ");
        }
        show_function_parameter_declaration(f, &fp.parameters[k]);
        assert(fp.parameters@.take(k + 1).drop_last() =~= fp.parameters@.take(k as int));
        k = k + 1;
    }
    assert(fp.parameters@.take(fp.parameters.len() as int) =~= fp.parameters@);
    f.append(")");
    show_return_type(f, &fp.ty.ty);
}

/// Appends one parameter.
pub fn show_function_parameter_declaration(
    f: &mut String,
    p: &syntax::FunctionParameterDeclaration,
)
    requires
        wf_parameter(*p),
    ensures
        final(f)@ == old(f)@ + parameter_text(*p),
{
    match p {
        syntax::FunctionParameterDeclaration::Named(qual, fpd) => {
            if let Some(q) = qual {
                show_type_qualifier(f, q);
            }
            show_function_parameter_declarator(f, fpd);
        },
        syntax::FunctionParameterDeclaration::Unnamed(qual, ty) => {
            if let Some(q) = qual {
                show_type_qualifier(f, q);
                f.append(" ");
            }
            show_type_specifier(f, ty);
        },
    }
}

/// Appends `name: type` of a named parameter.
pub fn show_function_parameter_declarator(
    f: &mut String,
    p: &syntax::FunctionParameterDeclarator,
)
    requires
        wf_type_specifier(p.ty),
    ensures
        final(f)@ == old(f)@ + declarator_text(*p),
{
    show_arrayed_identifier(f, &p.ident);
    f.append(": ");
    show_type_specifier(f, &p.ty);
}

/// Appends a ternary declaration's value as an `if` that assigns `name` in
/// each branch.
#[verifier::spinoff_prover]
#[verifier::rlimit(40)]
fn show_ternary_assign(
    f: &mut String,
    name: &str,
    c: &syntax::Expr,
    s: &syntax::Expr,
    e: &syntax::Expr,
)
    ensures
        final(f)@ == old(f)@ + ternary_text(
            Some(name@),
            expr_text(*c, false),
            expr_prec(*c),
            expr_text(*s, false),
            expr_text(*e, false),
            expr_prec(*e),
        ),
{
    f.append("if (");
    show_operand(f, c, 0, c.precedence() < 15);
    f.append(") { ");
    f.append(name);
    f.append(" = ");
    show_expr_as(f, s, false);
    f.append("; } else { ");
    f.append(name);
    f.append(" = ");
    show_operand(f, e, 0, e.precedence() <= 15);
    f.append("; }");
}

#[verifier::spinoff_prover]
#[verifier::rlimit(40)]
fn show_single_declaration_name(f: &mut String, d: &syntax::SingleDeclaration, i: i32)
    requires
        wf_single_declaration(*d),
    ensures
        final(f)@ == old(f)@ + single_declaration_name_text(*d, i as int),
{
    let ty = &d.ty.ty.ty;
    if let Some(name) = &d.name {
        let nolet = match &d.ty.qualifier {
            Some(_) => true,
            None => false,
        };
        if !nolet {
            if let Some(_) = &d.initializer {
                f.append("let ");
            } else if i == 0 {
                f.append("var<private> ");
            } else {
                f.append("var ");
            }
        }
        show_identifier(f, name);
        f.append(": ");
    }
    if let Some(arr_spec) = &d.array_specifier {
        show_array_spec_wgsl(f, arr_spec, ty);
    } else {
        show_type_specifier(f, &d.ty.ty);
    }
}

#[verifier::spinoff_prover]
#[verifier::rlimit(40)]
fn show_single_declaration_init(f: &mut String, d: &syntax::SingleDeclaration)
    requires
        wf_single_declaration(*d),
    ensures
        final(f)@ == old(f)@ + single_declaration_init_text(*d),
{
    let ternary = match &d.initializer {
        Some(syntax::Initializer::Simple(e)) => match &**e {
            syntax::Expr::Ternary(_, _, _) => true,
            _ => false,
        },
        _ => false,
    };
    if !ternary {
        if let Some(initializer) = &d.initializer {
            f.append(" = ");
            show_initializer(f, initializer, &d.ty.ty.ty);
        }
    } else {
        f.append("; ");
        if let Some(name) = &d.name {
            if let Some(syntax::Initializer::Simple(e)) = &d.initializer {
                if let syntax::Expr::Ternary(a, b, c) = &**e {
                    show_ternary_assign(f, name.0.as_str(), a, b, c);
                }
            }
        }
    }
}

/// Appends the first variable of a declaration at indentation `i`.
#[verifier::spinoff_prover]
#[verifier::rlimit(40)]
pub fn show_single_declaration(f: &mut String, d: &syntax::SingleDeclaration, i: i32)
    requires
        wf_single_declaration(*d),
    ensures
        final(f)@ == old(f)@ + single_declaration_text(*d, i as int),
{
    indent(f, i);
    if let Some(qual) = &d.ty.qualifier {
        show_type_qualifier(f, qual);
        f.append(" ");
    }
    show_single_declaration_name(f, d, i);
    show_single_declaration_init(f, d);
}

/// Appends a further variable of a declaration whose type is `t`.
#[verifier::spinoff_prover]
#[verifier::rlimit(40)]
pub fn show_single_declaration_no_type(
    f: &mut String,
    d: &syntax::SingleDeclarationNoType,
    t: &syntax::FullySpecifiedType,
    i: i32,
)
    requires
        wf_type_specifier(t.ty),
        wf_opt_qualifier(t.qualifier),
        match d.initializer {
            Some(ini) => wf_initializer(ini),
            None => true,
        },
    ensures
        final(f)@ == old(f)@ + single_declaration_no_type_text(*d, *t, i as int),
{
    let mut write_let = true;
    if let Some(qual) = &t.qualifier {
        show_type_qualifier(f, qual);
        f.append(" ");
        write_let = false;
    }
    if write_let {
        indent(f, i);
        f.append("let ");
    }
    show_arrayed_identifier(f, &d.ident);
    f.append(": ");
    show_type_specifier(f, &t.ty);
    let ty = &t.ty.ty;
    if let Some(initializer) = &d.initializer {
        f.append(" = ");
        show_initializer(f, initializer, ty);
    }
}

/// Appends a declaration of one or more variables at indentation `ind`; the
/// further variables follow after `;` and a newline.
#[verifier::spinoff_prover]
#[verifier::rlimit(40)]
pub fn show_init_declarator_list(f: &mut String, i: &syntax::InitDeclaratorList, ind: i32)
    requires
        wf_init_declarator_list(*i),
    ensures
        final(f)@ == old(f)@ + init_declarator_list_text(*i, ind as int),
{
    show_single_declaration(f, &i.head, ind);
    let ghost start = f@;
    let mut k: usize = 0;
    while k < i.tail.len()
        invariant
            k <= i.tail.len(),
            wf_init_declarator_list(*i),
            f@ == start + declaration_tail_text(i.tail@.take(k as int), i.head.ty, ind as int),
        decreases i.tail.len() - k,
    {
        f.append(";\n");
        show_single_declaration_no_type(f, &i.tail[k], &i.head.ty, ind);
        assert(i.tail@.take(k + 1).drop_last() =~= i.tail@.take(k as int));
        k = k + 1;
    }
    assert(i.tail@.take(i.tail.len() as int) =~= i.tail@);
}

/// Appends a block: qualifiers, name and fields at indentation `i`.
#[verifier::spinoff_prover]
#[verifier::rlimit(40)]
pub fn show_block(f: &mut String, b: &syntax::Block, i: i32)
    requires
        wf_type_qualifier(b.qualifier),
        forall|k: int| 0 <= k < b.fields@.len() ==> wf_field(#[trigger] b.fields@[k]),
        i <= i32::MAX - 2,
    ensures
        final(f)@ == old(f)@ + block_text(*b, i as int),
{
    show_type_qualifier(f, &b.qualifier);
    f.append(" ");
    show_identifier(f, &b.name);
    f.append(" {");
    let ghost start = f@;
    let mut k: usize = 0;
    while k < b.fields.len()
        invariant
            k <= b.fields.len(),
            i <= i32::MAX - 2,
            forall|j: int| 0 <= j < b.fields@.len() ==> wf_field(#[trigger] b.fields@[j]),
            f@ == start + block_fields_text(b.fields@.take(k as int), i + 1),
        decreases b.fields.len() - k,
    {
        show_struct_field(f, &b.fields[k], i + 1);
        f.append("\n");
        assert(b.fields@.take(k + 1).drop_last() =~= b.fields@.take(k as int));
        k = k + 1;
    }
    assert(b.fields@.take(b.fields.len() as int) =~= b.fields@);
    indent(f, i);
    f.append("}");
    if let Some(ident) = &b.identifier {
        show_arrayed_identifier(f, ident);
    }
}

/// Appends a declaration at indentation `i`.
#[verifier::spinoff_prover]
#[verifier::rlimit(40)]
pub fn show_declaration(f: &mut String, d: &syntax::Declaration, i: i32)
    requires
        wf_declaration(*d),
        i <= i32::MAX - 2,
    ensures
        final(f)@ == old(f)@ + declaration_text(*d, i as int),
{
    match d {
        syntax::Declaration::FunctionPrototype(proto) => {
            show_function_prototype(f, proto);
            f.append(";");
        },
        syntax::Declaration::InitDeclaratorList(list) => {
            show_init_declarator_list(f, list, i);
            f.append(";");
        },
        syntax::Declaration::Precision(qual, ty) => {
            show_precision_qualifier(f, qual);
            show_type_specifier(f, ty);
            f.append(";\n");
        },
        syntax::Declaration::Block(block) => {
            show_block(f, block, i);
            f.append(";\n");
        },
        syntax::Declaration::Global(qual, identifiers) => {
            show_type_qualifier(f, qual);
            let ghost start = f@;
            let mut k: usize = 0;
            while k < identifiers.len()
                invariant
                    k <= identifiers.len(),
                    f@ == start + globals_text(identifiers@.take(k as int)),
                decreases identifiers.len() - k,
            {
                if k == 0 {
                    show_identifier(f, &identifiers[k]);
                } else {
                    f.append(", ");
                    f.append(identifiers[k].0.as_str());
                }
                assert(identifiers@.take(k + 1).drop_last() =~= identifiers@.take(k as int));
                k = k + 1;
            }
            assert(identifiers@.take(identifiers.len() as int) =~= identifiers@);
            f.append(";\n");
        },
    }
}

proof fn lemma_statements_depth(s: Seq<syntax::Statement>, k: int)
    requires
        0 <= k < s.len(),
    ensures
        statement_depth(s[k]) <= statements_depth(s),
    decreases s.len(),
{
    if k < s.len() - 1 {
        lemma_statements_depth(s.drop_last(), k);
        assert(s.drop_last()[k] == s[k]);
    }
}

/// Appends a statement at indentation `i`; `is_single_line` for the branch
/// of an `if` that is not a block.
#[verifier::spinoff_prover]
#[verifier::rlimit(40)]
pub fn show_statement(f: &mut String, st: &syntax::Statement, i: i32, is_single_line: bool)
    requires
        wf_statement(*st),
        i + statement_depth(*st) <= i32::MAX,
    ensures
        final(f)@ == old(f)@ + statement_text(*st, i as int, is_single_line),
    decreases st,
{
    match st {
        syntax::Statement::Compound(cst) => show_compound_statement(f, cst, i),
        syntax::Statement::Simple(sst) => show_simple_statement(f, sst, i, is_single_line),
    }
}

/// Appends the statements of a block, one level deeper than `i`.
#[verifier::spinoff_prover]
#[verifier::rlimit(40)]
pub fn show_compound_statement(f: &mut String, cst: &syntax::CompoundStatement, i: i32)
    requires
        wf_compound(*cst),
        i + compound_depth(*cst) <= i32::MAX,
    ensures
        final(f)@ == old(f)@ + compound_statement_text(*cst, i as int),
    decreases cst,
{
    let ghost start = f@;
    let mut k: usize = 0;
    while k < cst.statement_list.len()
        invariant
            k <= cst.statement_list.len(),
            wf_compound(*cst),
            i + compound_depth(*cst) <= i32::MAX,
            f@ == start + statements_text(cst.statement_list@.take(k as int), i + 1),
        decreases cst.statement_list.len() - k,
    {
        proof {
            lemma_statements_depth(cst.statement_list@, k as int);
        }
        show_statement(f, &cst.statement_list[k], i + 1, false);
        assert(cst.statement_list@.take(k + 1).drop_last() =~= cst.statement_list@.take(k as int));
        k = k + 1;
    }
    assert(cst.statement_list@.take(cst.statement_list.len() as int) =~= cst.statement_list@);
}

/// Appends a statement that is not a block.
#[verifier::spinoff_prover]
#[verifier::rlimit(40)]
pub fn show_simple_statement(
    f: &mut String,
    sst: &syntax::SimpleStatement,
    ind: i32,
    is_single_line: bool,
)
    requires
        wf_simple_statement(*sst),
        ind + simple_statement_depth(*sst) <= i32::MAX,
    ensures
        final(f)@ == old(f)@ + simple_statement_text(*sst, ind as int, is_single_line),
    decreases sst,
{
    match sst {
        syntax::SimpleStatement::Declaration(d) => {
            show_declaration(f, d, ind);
            f.append("\n");
        },
        syntax::SimpleStatement::Expression(e) => show_expression_statement(
            f,
            e,
            ind,
            is_single_line,
        ),
        syntax::SimpleStatement::Selection(s) => show_selection_statement(f, s, ind),
        syntax::SimpleStatement::Switch(s) => show_switch_statement(f, s, ind),
        syntax::SimpleStatement::CaseLabel(cl) => show_case_label(f, cl, ind),
        syntax::SimpleStatement::Iteration(i) => show_iteration_statement(f, i, ind),
        syntax::SimpleStatement::Jump(j) => show_jump_statement(f, j, ind),
    }
}

/// Appends an expression statement: on its own indented line, or after a
/// space when `is_single_line` holds.
pub fn show_expression_statement(
    f: &mut String,
    est: &syntax::ExprStatement,
    i: i32,
    is_single_line: bool,
)
    ensures
        final(f)@ == old(f)@ + expression_statement_text(*est, i as int, is_single_line),
{
    if let Some(e) = est {
        if !is_single_line {
            indent(f, i);
        } else {
            f.append(" ");
        }
        show_expr(f, e);
    }
    f.append(";");
    if !is_single_line {
        f.append("\n");
    }
}

/// Appends an `if` statement at indentation `i`.
#[verifier::spinoff_prover]
#[verifier::rlimit(40)]
pub fn show_selection_statement(f: &mut String, sst: &syntax::SelectionStatement, i: i32)
    requires
        wf_selection(*sst),
        i + selection_depth(*sst) <= i32::MAX,
    ensures
        final(f)@ == old(f)@ + selection_statement_text(*sst, i as int),
    decreases sst,
{
    let mut is_single_line = false;
    if let syntax::SelectionRestStatement::Statement(if_st) = &sst.rest {
        if let syntax::Statement::Simple(_) = &**if_st {
            is_single_line = true;
        }
    }
    indent(f, i);
    f.append("if (");
    show_expr(f, &sst.cond);
    f.append(") {");
    if !is_single_line {
        f.append("\n");
    }
    show_selection_rest_statement(f, &sst.rest, i, is_single_line);
}

/// Appends the branches of an `if` and their closing braces.
#[verifier::spinoff_prover]
#[verifier::rlimit(40)]
pub fn show_selection_rest_statement(
    f: &mut String,
    sst: &syntax::SelectionRestStatement,
    i: i32,
    is_single_line: bool,
)
    requires
        wf_selection_rest(*sst),
        i + selection_rest_depth(*sst) <= i32::MAX,
    ensures
        final(f)@ == old(f)@ + selection_rest_text(*sst, i as int, is_single_line),
    decreases sst,
{
    match sst {
        syntax::SelectionRestStatement::Statement(if_st) => {
            show_statement(f, if_st, i, is_single_line);
            if !is_single_line {
                indent(f, i);
            } else {
                f.append(" ");
            }
            f.append("}\n");
        },
        syntax::SelectionRestStatement::Else(if_st, else_st) => {
            show_statement(f, if_st, i, is_single_line);
            indent(f, i);
            f.append("} else { \n");
            show_statement(f, else_st, i, is_single_line);
            indent(f, i);
            f.append("}\n");
        },
    }
}

/// Appends a `switch` statement at indentation `i`.
#[verifier::spinoff_prover]
#[verifier::rlimit(40)]
pub fn show_switch_statement(f: &mut String, sst: &syntax::SwitchStatement, i: i32)
    requires
        wf_switch(*sst),
        i + switch_depth(*sst) <= i32::MAX,
    ensures
        final(f)@ == old(f)@ + switch_statement_text(*sst, i as int),
    decreases sst,
{
    indent(f, i);
    f.append("switch (");
    show_expr(f, &sst.head);
    f.append(") {\n");
    let ghost start = f@;
    let mut k: usize = 0;
    while k < sst.body.len()
        invariant
            k <= sst.body.len(),
            wf_switch(*sst),
            i + switch_depth(*sst) <= i32::MAX,
            f@ == start + statements_text(sst.body@.take(k as int), i + 1),
        decreases sst.body.len() - k,
    {
        proof {
            lemma_statements_depth(sst.body@, k as int);
        }
        show_statement(f, &sst.body[k], i + 1, false);
        assert(sst.body@.take(k + 1).drop_last() =~= sst.body@.take(k as int));
        k = k + 1;
    }
    assert(sst.body@.take(sst.body.len() as int) =~= sst.body@);
    f.append("}\n");
}

/// Appends a `case` or `default` label, one level deeper than `i`.
pub fn show_case_label(f: &mut String, cl: &syntax::CaseLabel, i: i32)
    requires
        i < i32::MAX,
    ensures
        final(f)@ == old(f)@ + case_label_text(*cl, i as int),
{
    indent(f, i + 1);
    match cl {
        syntax::CaseLabel::Case(e) => {
            f.append("case ");
            show_expr(f, e);
            f.append(":\n");
        },
        syntax::CaseLabel::Def => f.append("default:\n"),
    }
}

/// Appends a loop at indentation `i`; values in a `for` header are written
/// as floats when the declared variable has float components.
#[verifier::spinoff_prover]
#[verifier::rlimit(60)]
pub fn show_iteration_statement(f: &mut String, ist: &syntax::IterationStatement, i: i32)
    requires
        wf_iteration(*ist),
        i + iteration_depth(*ist) <= i32::MAX,
    ensures
        final(f)@ == old(f)@ + iteration_statement_text(*ist, i as int),
    decreases ist,
{
    match ist {
        syntax::IterationStatement::While(cond, body) => {
            f.append("while (");
            show_condition(f, cond, &syntax::TypeSpecifierNonArray::Int);
            f.append(") ");
            show_statement(f, body, i, false);
        },
        syntax::IterationStatement::DoWhile(body, cond) => {
            f.append("do ");
            show_statement(f, body, i, false);
            f.append(" while (");
            show_expr(f, cond);
            f.append(")\n");
        },
        syntax::IterationStatement::For(init, rest, body) => {
            let ty = get_ty_in_for_init(init);
            f.append("\n");
            indent(f, i);
            f.append("for (");
            show_for_init_statement(f, init, ty);
            f.append(" ");
            show_for_rest_statement(f, rest, ty);
            f.append(") {\n");
            show_statement(f, body, i, false);
            indent(f, i);
            f.append("}\n\n");
        },
    }
}

/// Appends a loop condition; integer constants in it become floats when
/// `ty` has float components.
#[verifier::spinoff_prover]
#[verifier::rlimit(40)]
pub fn show_condition(f: &mut String, c: &syntax::Condition, ty: &TypeSpecifierNonArray)
    requires
        wf_condition(*c),
    ensures
        final(f)@ == old(f)@ + condition_text(*c, *ty),
{
    match c {
        syntax::Condition::Expr(e) => {
            let fl = is_float(ty);
            show_expr_as(f, e, fl);
        },
        syntax::Condition::Assignment(ty, name, initializer) => {
            show_fully_specified_type(f, ty);
            f.append(" ");
            show_identifier(f, name);
            f.append(" = ");
            show_initializer(f, initializer, &ty.ty.ty);
        },
    }
}

/// The type of the variable that a `for` header declares, or `int`.
pub fn get_ty_in_for_init(i: &syntax::ForInitStatement) -> (r: &TypeSpecifierNonArray)
    ensures
        *r == for_init_type(*i),
{
    if let syntax::ForInitStatement::Declaration(d) = i {
        if let syntax::Declaration::InitDeclaratorList(idl) = &**d {
            return &idl.head.ty.ty.ty;
        }
    }
    &syntax::TypeSpecifierNonArray::Int
}

/// Appends the first part of a `for` header.
#[verifier::spinoff_prover]
#[verifier::rlimit(40)]
pub fn show_for_init_statement(
    f: &mut String,
    i: &syntax::ForInitStatement,
    ty: &TypeSpecifierNonArray,
)
    requires
        wf_for_init(*i),
    ensures
        final(f)@ == old(f)@ + for_init_statement_text(*i, *ty),
{
    match i {
        syntax::ForInitStatement::Expression(expr) => {
            if let Some(e) = expr {
                let fl = is_float(ty);
                show_expr_as(f, e, fl);
            }
        },
        syntax::ForInitStatement::Declaration(d) => {
            show_declaration(f, d, 0);
        },
    }
}

/// Appends the condition and step of a `for` header.
#[verifier::spinoff_prover]
#[verifier::rlimit(40)]
pub fn show_for_rest_statement(
    f: &mut String,
    r: &syntax::ForRestStatement,
    ty: &TypeSpecifierNonArray,
)
    requires
        wf_for_rest(*r),
    ensures
        final(f)@ == old(f)@ + for_rest_statement_text(*r, *ty),
{
    if let Some(cond) = &r.condition {
        show_condition(f, cond, ty);
    }
    f.append("; ");
    if let Some(e) = &r.post_expr {
        let fl = is_float(ty);
        show_expr_as(f, e, fl);
    }
}

/// Appends a jump at indentation `i`.
pub fn show_jump_statement(f: &mut String, j: &syntax::JumpStatement, i: i32)
    ensures
        final(f)@ == old(f)@ + jump_statement_text(*j, i as int),
{
    indent(f, i);
    match j {
        syntax::JumpStatement::Continue => f.append("continue;\n"),
        syntax::JumpStatement::Break => f.append("break;\n"),
        syntax::JumpStatement::Discard => f.append("discard;\n"),
        syntax::JumpStatement::Return(e) => {
            f.append("return ");
            if let Some(e) = e {
                show_expr(f, e);
            }
            f.append(";\n");
        },
    }
}

/// Appends a function with its body at indentation `i`.
#[verifier::spinoff_prover]
#[verifier::rlimit(40)]
pub fn show_function_definition(f: &mut String, fd: &syntax::FunctionDefinition, i: i32)
    requires
        wf_prototype(fd.prototype),
        wf_compound(fd.statement),
        i + compound_depth(fd.statement) <= i32::MAX,
    ensures
        final(f)@ == old(f)@ + function_definition_text(*fd, i as int),
{
    show_function_prototype(f, &fd.prototype);
    f.append(" {\n");
    show_compound_statement(f, &fd.statement, i);
    indent(f, i);
    f.append("} \n");
}

/// Appends a preprocessor directive on its own line.
pub fn show_preprocessor(f: &mut String, pp: &syntax::Preprocessor)
    ensures
        final(f)@ == old(f)@ + preprocessor_text(*pp),
{
    match pp {
        syntax::Preprocessor::Define(pd) => show_preprocessor_define(f, pd),
        syntax::Preprocessor::Else => show_preprocessor_else(f),
        syntax::Preprocessor::ElseIf(pei) => show_preprocessor_elseif(f, pei),
        syntax::Preprocessor::EndIf => show_preprocessor_endif(f),
        syntax::Preprocessor::Error(pe) => show_preprocessor_error(f, pe),
        syntax::Preprocessor::If(pi) => show_preprocessor_if(f, pi),
        syntax::Preprocessor::IfDef(pid) => show_preprocessor_ifdef(f, pid),
        syntax::Preprocessor::IfNDef(pind) => show_preprocessor_ifndef(f, pind),
        syntax::Preprocessor::Include(pi) => show_preprocessor_include(f, pi),
        syntax::Preprocessor::Line(pl) => show_preprocessor_line(f, pl),
        syntax::Preprocessor::Pragma(pp) => show_preprocessor_pragma(f, pp),
        syntax::Preprocessor::Undef(pu) => show_preprocessor_undef(f, pu),
        syntax::Preprocessor::Version(pv) => show_preprocessor_version(f, pv),
        syntax::Preprocessor::Extension(pe) => show_preprocessor_extension(f, pe),
    }
}

/// Appends a `#define` line.
#[verifier::spinoff_prover]
#[verifier::rlimit(40)]
pub fn show_preprocessor_define(f: &mut String, pd: &syntax::PreprocessorDefine)
    ensures
        final(f)@ == old(f)@ + preprocessor_define_text(*pd),
{
    match pd {
        syntax::PreprocessorDefine::ObjectLike { ident, value } => {
            f.append("#define ");
            f.append(ident.0.as_str());
            f.append(" ");
            f.append(value.as_str());
            f.append("\n");
        },
        syntax::PreprocessorDefine::FunctionLike { ident, args, value } => {
            f.append("#define ");
            f.append(ident.0.as_str());
            f.append("(");
            let ghost start = f@;
            let mut k: usize = 0;
            while k < args.len()
                invariant
                    k <= args.len(),
                    f@ == start + raw_identifiers_text(args@.take(k as int)),
                decreases args.len() - k,
            {
                if k > 0 {
                    f.append(", ");
                }
                f.append(args[k].0.as_str());
                assert(args@.take(k + 1).drop_last() =~= args@.take(k as int));
                k = k + 1;
            }
            assert(args@.take(args.len() as int) =~= args@);
            f.append(") ");
            f.append(value.as_str());
            f.append("\n");
        },
    }
}

/// Appends `#else` on its own line.
pub fn show_preprocessor_else(f: &mut String)
    ensures
        final(f)@ == old(f)@ + "#else\n"@,
{
    f.append("#else\n");
}

/// Appends an `#elseif` line.
pub fn show_preprocessor_elseif(f: &mut String, pei: &syntax::PreprocessorElseIf)
    ensures
        final(f)@ == old(f)@ + "#elseif "@ + pei.condition@ + "\n"@,
{
    f.append("#elseif ");
    f.append(pei.condition.as_str());
    f.append("\n");
}

/// Appends an `#error` line.
pub fn show_preprocessor_error(f: &mut String, pe: &syntax::PreprocessorError)
    ensures
        final(f)@ == old(f)@ + "#error "@ + pe.message@ + "\n"@,
{
    f.append("#error ");
    f.append(pe.message.as_str());
    f.append("\n");
}

/// Appends `#endif` on its own line.
pub fn show_preprocessor_endif(f: &mut String)
    ensures
        final(f)@ == old(f)@ + "#endif\n"@,
{
    f.append("#endif\n");
}

/// Appends an `#if` line.
pub fn show_preprocessor_if(f: &mut String, pi: &syntax::PreprocessorIf)
    ensures
        final(f)@ == old(f)@ + "#if "@ + pi.condition@ + "\n"@,
{
    f.append("#if ");
    f.append(pi.condition.as_str());
    f.append("\n");
}

/// Appends an `#ifdef` line.
pub fn show_preprocessor_ifdef(f: &mut String, pid: &syntax::PreprocessorIfDef)
    ensures
        final(f)@ == old(f)@ + "#ifdef "@ + identifier_text(pid.ident) + "\n"@,
{
    f.append("#ifdef ");
    show_identifier(f, &pid.ident);
    f.append("\n");
}

/// Appends an `#ifndef` line.
pub fn show_preprocessor_ifndef(f: &mut String, pind: &syntax::PreprocessorIfNDef)
    ensures
        final(f)@ == old(f)@ + "#ifndef "@ + identifier_text(pind.ident) + "\n"@,
{
    f.append("#ifndef ");
    show_identifier(f, &pind.ident);
    f.append("\n");
}

/// Appends an `#include` line.
pub fn show_preprocessor_include(f: &mut String, pi: &syntax::PreprocessorInclude)
    ensures
        final(f)@ == old(f)@ + "#include "@ + path_text(pi.path) + "\n"@,
{
    f.append("#include ");
    show_path(f, &pi.path);
    f.append("\n");
}

/// Appends a `#line` line.
pub fn show_preprocessor_line(f: &mut String, pl: &syntax::PreprocessorLine)
    ensures
        final(f)@ == old(f)@ + preprocessor_line_text(*pl),
{
    f.append("#line ");
    write_nat(f, pl.line as u64);
    if let Some(source_string_number) = pl.source_string_number {
        f.append(" ");
        write_nat(f, source_string_number as u64);
    }
    f.append("\n");
}

/// Appends a `#pragma` line.
pub fn show_preprocessor_pragma(f: &mut String, pp: &syntax::PreprocessorPragma)
    ensures
        final(f)@ == old(f)@ + "#pragma "@ + pp.command@ + "\n"@,
{
    f.append("#pragma ");
    f.append(pp.command.as_str());
    f.append("\n");
}

/// Appends an `#undef` line.
pub fn show_preprocessor_undef(f: &mut String, pud: &syntax::PreprocessorUndef)
    ensures
        final(f)@ == old(f)@ + "#undef "@ + identifier_text(pud.name) + "\n"@,
{
    f.append("#undef ");
    show_identifier(f, &pud.name);
    f.append("\n");
}

/// Appends a `#version` line.
pub fn show_preprocessor_version(f: &mut String, pv: &syntax::PreprocessorVersion)
    ensures
        final(f)@ == old(f)@ + preprocessor_version_text(*pv),
{
    f.append("#version ");
    write_nat(f, pv.version as u64);
    if let Some(profile) = &pv.profile {
        match profile {
            syntax::PreprocessorVersionProfile::Core => f.append(" core"),
            syntax::PreprocessorVersionProfile::Compatibility => f.append(" compatibility"),
            syntax::PreprocessorVersionProfile::ES => f.append(" es"),
        }
    }
    f.append("\n");
}

/// Appends an `#extension` line.
pub fn show_preprocessor_extension(f: &mut String, pe: &syntax::PreprocessorExtension)
    ensures
        final(f)@ == old(f)@ + preprocessor_extension_text(*pe),
{
    f.append("#extension ");
    match &pe.name {
        syntax::PreprocessorExtensionName::All => f.append("all"),
        syntax::PreprocessorExtensionName::Specific(n) => f.append(n.as_str()),
    }
    if let Some(behavior) = &pe.behavior {
        match behavior {
            syntax::PreprocessorExtensionBehavior::Require => f.append(" : require"),
            syntax::PreprocessorExtensionBehavior::Enable => f.append(" : enable"),
            syntax::PreprocessorExtensionBehavior::Warn => f.append(" : warn"),
            syntax::PreprocessorExtensionBehavior::Disable => f.append(" : disable"),
        }
    }
    f.append("\n");
}

/// Appends a top-level item at indentation `i`.
pub fn show_external_declaration(f: &mut String, ed: &syntax::ExternalDeclaration, i: i32)
    requires
        wf_external_declaration(*ed, i as int),
    ensures
        final(f)@ == old(f)@ + external_declaration_text(*ed, i as int),
{
    match ed {
        syntax::ExternalDeclaration::Preprocessor(pp) => show_preprocessor(f, pp),
        syntax::ExternalDeclaration::FunctionDefinition(fd) => show_function_definition(f, fd, i),
        syntax::ExternalDeclaration::Declaration(d) => show_declaration(f, d, i),
    }
}

/// Appends the WGSL text of a whole program: each top-level item followed by
/// a newline.
pub fn show_translation_unit(f: &mut String, tu: &syntax::TranslationUnit)
    requires
        wf_translation_unit(*tu),
    ensures
        final(f)@ == old(f)@ + translation_unit_text(*tu),
{
    let ghost start = f@;
    let mut k: usize = 0;
    while k < tu.0.len()
        invariant
            k <= tu.0.len(),
            wf_translation_unit(*tu),
            f@ == start + external_declarations_text(tu.0@.take(k as int)),
        decreases tu.0.len() - k,
    {
        show_external_declaration(f, &tu.0[k], 0);
        f.append("\n");
        assert(tu.0@.take(k + 1).drop_last() =~= tu.0@.take(k as int));
        k = k + 1;
    }
    assert(tu.0@.take(tu.0.len() as int) =~= tu.0@);
}

} // verus!
