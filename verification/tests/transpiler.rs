use glsl2wgsl::transpiler::wf_check::translation_unit_ok;
use glsl2wgsl::syntax::{
    ArraySpecifier, ArraySpecifierDimension, AssignmentOp, BinaryOp, CompoundStatement,
    Declaration, Expr, ExternalDeclaration, FullySpecifiedType, FunIdentifier,
    FunctionDefinition, FunctionParameterDeclaration, FunctionParameterDeclarator,
    FunctionPrototype, Identifier, InitDeclaratorList, Initializer, SelectionRestStatement,
    SelectionStatement, SimpleStatement, SingleDeclaration, Statement, TranslationUnit,
    TypeSpecifier, TypeSpecifierNonArray, UnaryOp, ArrayedIdentifier, JumpStatement,
    IterationStatement, ForInitStatement, ForRestStatement, Condition, StorageQualifier,
    TypeQualifier, TypeQualifierSpec,
};
use glsl2wgsl::transpiler::wgsl::{
    convert_to_float, is_float, is_float_str, is_instance_of_swizzle, is_swizzle, show_expr,
    show_translation_unit, show_type_specifier_non_array, show_single_declaration, indent,
    convert_builtin_functions,
};

fn ident(s: &str) -> Identifier {
    Identifier(s.to_string())
}

fn var(s: &str) -> Box<Expr> {
    Box::new(Expr::Variable(ident(s)))
}

fn ty(t: TypeSpecifierNonArray) -> TypeSpecifier {
    TypeSpecifier { ty: t, array_specifier: None }
}

fn full(t: TypeSpecifierNonArray) -> FullySpecifiedType {
    FullySpecifiedType { qualifier: None, ty: ty(t) }
}

fn expr_string(e: &Expr) -> String {
    let mut s = String::new();
    show_expr(&mut s, e);
    s
}

fn decl(t: TypeSpecifierNonArray, name: &str, init: Option<Expr>) -> ExternalDeclaration {
    ExternalDeclaration::Declaration(Declaration::InitDeclaratorList(InitDeclaratorList {
        head: SingleDeclaration {
            ty: full(t),
            name: Some(ident(name)),
            array_specifier: None,
            initializer: init.map(|e| Initializer::Simple(Box::new(e))),
        },
        tail: vec![],
    }))
}

fn function(ret: TypeSpecifierNonArray, name: &str, params: Vec<(&str, TypeSpecifierNonArray)>, body: Vec<Statement>) -> ExternalDeclaration {
    ExternalDeclaration::FunctionDefinition(FunctionDefinition {
        prototype: FunctionPrototype {
            ty: full(ret),
            name: ident(name),
            parameters: params
                .into_iter()
                .map(|(n, t)| {
                    FunctionParameterDeclaration::Named(
                        None,
                        FunctionParameterDeclarator {
                            ty: ty(t),
                            ident: ArrayedIdentifier { ident: ident(n), array_spec: None },
                        },
                    )
                })
                .collect(),
        },
        statement: CompoundStatement { statement_list: body },
    })
}

fn unit(decls: Vec<ExternalDeclaration>) -> String {
    let mut s = String::new();
    show_translation_unit(&mut s, &TranslationUnit(decls));
    s
}

#[test]
fn simple_vec2_declarations() {
    let tu = vec![
        decl(
            TypeSpecifierNonArray::Vec2,
            "e",
            Some(Expr::FunCall(
                FunIdentifier::Identifier(ident("vec2<f32>")),
                vec![Expr::FloatConst("3.".to_string())],
            )),
        ),
        decl(TypeSpecifierNonArray::Float, "b", Some(Expr::FloatConst("1.".to_string()))),
    ];
    assert_eq!(unit(tu), "let e: vec2<f32> = vec2<f32>(3.);\nlet b: f32 = 1.;\n");
}

#[test]
fn integer_values_of_float_variables_become_floats() {
    let tu = vec![decl(TypeSpecifierNonArray::Float, "a", Some(Expr::IntConst(1)))];
    assert_eq!(unit(tu), "let a: f32 = 1.;\n");
    let tu = vec![decl(TypeSpecifierNonArray::Int, "a", Some(Expr::IntConst(-7)))];
    assert_eq!(unit(tu), "let a: i32 = -7;\n");
}

#[test]
fn global_without_value_is_private() {
    let tu = vec![decl(TypeSpecifierNonArray::Vec4, "rd", None)];
    assert_eq!(unit(tu), "var<private> rd: vec4<f32>;\n");
}

#[test]
fn function_prototypes() {
    let tu = vec![
        function(TypeSpecifierNonArray::Vec3, "norm", vec![("po", TypeSpecifierNonArray::Vec3)], vec![]),
        function(TypeSpecifierNonArray::Vec2, "norm2", vec![("wq", TypeSpecifierNonArray::Vec2)], vec![]),
    ];
    assert_eq!(
        unit(tu),
        "fn norm(po: vec3<f32>) -> vec3<f32> {\n} \n\nfn norm2(wq: vec2<f32>) -> vec2<f32> {\n} \n\n"
    );
}

#[test]
fn function_body_and_return() {
    let body = vec![
        Statement::Simple(Box::new(SimpleStatement::Declaration(Declaration::InitDeclaratorList(
            InitDeclaratorList {
                head: SingleDeclaration {
                    ty: full(TypeSpecifierNonArray::Int),
                    name: Some(ident("what")),
                    array_specifier: None,
                    initializer: Some(Initializer::Simple(Box::new(Expr::IntConst(3)))),
                },
                tail: vec![],
            },
        )))),
        Statement::Simple(Box::new(SimpleStatement::Jump(JumpStatement::Return(Some(var("what")))))),
    ];
    let tu = vec![function(TypeSpecifierNonArray::Vec3, "norm", vec![("po", TypeSpecifierNonArray::Vec3)], body)];
    assert_eq!(
        unit(tu),
        "fn norm(po: vec3<f32>) -> vec3<f32> {\n\tlet what: i32 = 3;\n\treturn what;\n} \n\n"
    );
}

#[test]
fn void_function_returns_unit() {
    let tu = vec![function(TypeSpecifierNonArray::Void, "main", vec![], vec![])];
    assert_eq!(unit(tu), "fn main() -> () {\n} \n\n");
}

#[test]
fn single_line_if() {
    let assign = Expr::Assignment(var("t"), AssignmentOp::Equal, Box::new(Expr::IntConst(3)));
    let cond = Expr::Binary(
        BinaryOp::GT,
        Box::new(Expr::Dot(var("r"), ident("x"))),
        Box::new(Expr::Dot(var("d"), ident("x"))),
    );
    let body = vec![Statement::Simple(Box::new(SimpleStatement::Selection(SelectionStatement {
        cond: Box::new(cond),
        rest: SelectionRestStatement::Statement(Box::new(Statement::Simple(Box::new(
            SimpleStatement::Expression(Some(assign)),
        )))),
    })))];
    let tu = vec![function(TypeSpecifierNonArray::Void, "norm", vec![("po", TypeSpecifierNonArray::Vec3)], body)];
    assert_eq!(
        unit(tu),
        "fn norm(po: vec3<f32>) -> () {\n\tif (r.x > d.x) { t = 3; }\n} \n\n"
    );
}

#[test]
fn compound_assignment_repeats_target() {
    let e = Expr::Assignment(
        Box::new(Expr::Dot(var("rd"), ident("x"))),
        AssignmentOp::Mult,
        Box::new(Expr::Binary(
            BinaryOp::Add,
            Box::new(Expr::FloatConst("2.".to_string())),
            Box::new(Expr::FloatConst("3.".to_string())),
        )),
    );
    assert_eq!(expr_string(&e), "rd.x = rd.x * (2. + 3.)");
}

#[test]
fn swizzle_assignment_is_split_per_component() {
    let e = Expr::Assignment(
        Box::new(Expr::Dot(var("p"), ident("xy"))),
        AssignmentOp::Equal,
        var("q"),
    );
    assert_eq!(
        expr_string(&e),
        "var pxy = p.xy;\n\tpxy = q;\n\tp.x = pxy.x;\n\tp.y = pxy.y"
    );
}

#[test]
fn binary_precedence_parentheses() {
    let sum = Expr::Binary(BinaryOp::Add, var("a"), var("b"));
    let prod = Expr::Binary(BinaryOp::Mult, Box::new(sum), var("c"));
    assert_eq!(expr_string(&prod), "(a + b) * c");
    let e = Expr::Binary(
        BinaryOp::Sub,
        var("a"),
        Box::new(Expr::Binary(BinaryOp::Sub, var("b"), var("c"))),
    );
    assert_eq!(expr_string(&e), "a - (b - c)");
}

#[test]
fn double_minus_keeps_parentheses() {
    let e = Expr::Unary(UnaryOp::Minus, Box::new(Expr::Unary(UnaryOp::Minus, var("a"))));
    assert_eq!(expr_string(&e), "-(-a)");
    let e = Expr::Unary(UnaryOp::Not, Box::new(Expr::Unary(UnaryOp::Not, var("a"))));
    assert_eq!(expr_string(&e), "!!a");
}

#[test]
fn increments_become_assignments() {
    assert_eq!(expr_string(&Expr::PostInc(var("i"))), "i = i + 1");
    assert_eq!(expr_string(&Expr::Unary(UnaryOp::Dec, var("i"))), " = i - 1i");
}

#[test]
fn ternary_becomes_if() {
    let e = Expr::Ternary(var("c"), var("a"), var("b"));
    assert_eq!(expr_string(&e), "if (c) { a; } else { b; }");
}

#[test]
fn ternary_declaration_assigns_in_each_branch() {
    let d = SingleDeclaration {
        ty: full(TypeSpecifierNonArray::Float),
        name: Some(ident("x")),
        array_specifier: None,
        initializer: Some(Initializer::Simple(Box::new(Expr::Ternary(
            var("c"),
            var("a"),
            var("b"),
        )))),
    };
    let mut s = String::new();
    show_single_declaration(&mut s, &d, 1);
    assert_eq!(s, "\tlet x: f32; if (c) { x = a; } else { x = b; }");
}

#[test]
fn float_constructor_converts_int_arguments() {
    let e = Expr::FunCall(
        FunIdentifier::Identifier(ident("vec3<f32>")),
        vec![Expr::IntConst(1), Expr::UIntConst(2), Expr::FloatConst("0.5".to_string())],
    );
    assert_eq!(expr_string(&e), "vec3<f32>(1., 2., 0.5)");
    let e = Expr::FunCall(FunIdentifier::Identifier(ident("foo")), vec![Expr::IntConst(1), Expr::UIntConst(2)]);
    assert_eq!(expr_string(&e), "foo(1, 2u)");
}

#[test]
fn builtin_functions_are_renamed() {
    assert_eq!(convert_builtin_functions("smoothstep"), "smoothStep");
    assert_eq!(convert_builtin_functions("mix"), "mix");
    let e = Expr::FunCall(FunIdentifier::Identifier(ident("smoothstep")), vec![Expr::IntConst(0)]);
    assert_eq!(expr_string(&e), "smoothStep(0)");
}

#[test]
fn convert_to_float_on_values() {
    let e = Expr::Binary(BinaryOp::Add, Box::new(Expr::IntConst(1)), Box::new(Expr::IntConst(2)));
    let c = convert_to_float(e, &TypeSpecifierNonArray::Vec2);
    assert_eq!(
        c,
        Expr::Binary(BinaryOp::Add, Box::new(Expr::IntConst(1)), Box::new(Expr::FloatConst("2.".to_string())))
    );
    let c = convert_to_float(Expr::IntConst(5), &TypeSpecifierNonArray::Int);
    assert_eq!(c, Expr::IntConst(5));
    let c = convert_to_float(Expr::Unary(UnaryOp::Minus, Box::new(Expr::UIntConst(4))), &TypeSpecifierNonArray::Float);
    assert_eq!(c, Expr::Unary(UnaryOp::Minus, Box::new(Expr::FloatConst("4.".to_string()))));
}

#[test]
fn float_types() {
    assert!(is_float(&TypeSpecifierNonArray::Mat3));
    assert!(is_float(&TypeSpecifierNonArray::DVec2));
    assert!(!is_float(&TypeSpecifierNonArray::IVec2));
    assert!(is_float_str("vec4<f32>"));
    assert!(!is_float_str("vec4<i32>"));
}

#[test]
fn swizzles() {
    assert!(is_swizzle("xy"));
    assert!(is_swizzle("wzy"));
    assert!(is_swizzle("rgba"));
    assert!(!is_swizzle("xx"));
    assert!(!is_swizzle("x"));
    assert!(!is_swizzle("xg"));
    assert!(!is_swizzle("xyzwx"));
    assert!(is_instance_of_swizzle("", "abc", 0));
    assert!(!is_instance_of_swizzle("ab", "a", 2));
}

#[test]
fn type_names() {
    let mut s = String::new();
    show_type_specifier_non_array(&mut s, &TypeSpecifierNonArray::Mat23);
    show_type_specifier_non_array(&mut s, &TypeSpecifierNonArray::Void);
    assert_eq!(s, "mat2x3<f32>()");
}

#[test]
fn indentation() {
    let mut s = String::new();
    indent(&mut s, 3);
    indent(&mut s, -2);
    assert_eq!(s, "\t\t\t");
}

#[test]
fn for_loop_header() {
    let init = ForInitStatement::Declaration(Box::new(Declaration::InitDeclaratorList(InitDeclaratorList {
        head: SingleDeclaration {
            ty: full(TypeSpecifierNonArray::Int),
            name: Some(ident("i")),
            array_specifier: None,
            initializer: Some(Initializer::Simple(Box::new(Expr::IntConst(0)))),
        },
        tail: vec![],
    })));
    let rest = ForRestStatement {
        condition: Some(Condition::Expr(Box::new(Expr::Binary(BinaryOp::LT, var("i"), Box::new(Expr::IntConst(120)))))),
        post_expr: Some(Box::new(Expr::PostInc(var("i")))),
    };
    let body = Statement::Compound(Box::new(CompoundStatement { statement_list: vec![] }));
    let st = Statement::Simple(Box::new(SimpleStatement::Iteration(IterationStatement::For(init, rest, Box::new(body)))));
    let tu = vec![function(TypeSpecifierNonArray::Void, "main", vec![], vec![st])];
    assert_eq!(
        unit(tu),
        "fn main() -> () {\n\n\tfor (let i: i32 = 0; i < 120; i = i + 1) {\n\t}\n\n} \n\n"
    );
}

#[test]
fn uniform_qualifier() {
    let q = TypeQualifier { qualifiers: vec![TypeQualifierSpec::Storage(StorageQualifier::Uniform)] };
    let d = SingleDeclaration {
        ty: FullySpecifiedType { qualifier: Some(q), ty: ty(TypeSpecifierNonArray::Float) },
        name: Some(ident("t")),
        array_specifier: None,
        initializer: None,
    };
    let mut s = String::new();
    show_single_declaration(&mut s, &d, 0);
    assert_eq!(s, "\n[[group(?), binding(?)]]\nvar<uniform> t: f32");
}

#[test]
fn array_declaration() {
    let d = SingleDeclaration {
        ty: full(TypeSpecifierNonArray::Float),
        name: Some(ident("a")),
        array_specifier: Some(ArraySpecifier {
            dimensions: vec![ArraySpecifierDimension::ExplicitlySized(Box::new(Expr::IntConst(3)))],
        }),
        initializer: None,
    };
    let mut s = String::new();
    show_single_declaration(&mut s, &d, 1);
    assert_eq!(s, "\tvar a: array<f32,3>");
}

#[test]
fn well_formed_programs_are_recognised() {
    let good = TranslationUnit(vec![
        decl(TypeSpecifierNonArray::Float, "c", Some(Expr::IntConst(1))),
        function(TypeSpecifierNonArray::Void, "main", vec![("x", TypeSpecifierNonArray::Vec2)], vec![]),
    ]);
    assert!(translation_unit_ok(&good));
    let empty_qualifier = TranslationUnit(vec![ExternalDeclaration::Declaration(Declaration::Global(
        TypeQualifier { qualifiers: vec![] },
        vec![ident("x")],
    ))]);
    assert!(!translation_unit_ok(&empty_qualifier));
    let empty_list = TranslationUnit(vec![ExternalDeclaration::Declaration(
        Declaration::InitDeclaratorList(InitDeclaratorList {
            head: SingleDeclaration {
                ty: full(TypeSpecifierNonArray::Float),
                name: Some(ident("a")),
                array_specifier: None,
                initializer: Some(Initializer::List(vec![])),
            },
            tail: vec![],
        }),
    )]);
    assert!(!translation_unit_ok(&empty_list));
}

fn call(name: &str, args: Vec<Expr>) -> Expr {
    Expr::FunCall(FunIdentifier::Identifier(ident(name)), args)
}

fn local(t: TypeSpecifierNonArray, name: &str, init: Option<Expr>) -> Statement {
    Statement::Simple(Box::new(SimpleStatement::Declaration(Declaration::InitDeclaratorList(
        InitDeclaratorList {
            head: SingleDeclaration {
                ty: full(t),
                name: Some(ident(name)),
                array_specifier: None,
                initializer: init.map(|e| Initializer::Simple(Box::new(e))),
            },
            tail: vec![],
        },
    ))))
}

fn expression(e: Expr) -> Statement {
    Statement::Simple(Box::new(SimpleStatement::Expression(Some(e))))
}

#[test]
fn swizzle_components_are_read_back_by_position() {
    let e = Expr::Assignment(
        Box::new(Expr::Dot(var("q"), ident("xw"))),
        AssignmentOp::Equal,
        Box::new(call(
            "vec2<f32>",
            vec![Expr::Unary(UnaryOp::Minus, Box::new(Expr::IntConst(1))), Expr::IntConst(3)],
        )),
    );
    assert_eq!(
        expr_string(&e),
        "var qxw = q.xw;\n\tqxw = vec2<f32>(-1., 3.);\n\tq.x = qxw.x;\n\tq.w = qxw.y"
    );
}

#[test]
fn indexing_stays_indexing() {
    let index = Expr::Bracket(
        var("m"),
        ArraySpecifier {
            dimensions: vec![ArraySpecifierDimension::ExplicitlySized(Box::new(Expr::IntConst(0)))],
        },
    );
    assert_eq!(expr_string(&index), "m[0]");
    let sum = Expr::Bracket(
        Box::new(Expr::Binary(BinaryOp::Add, var("a"), var("b"))),
        ArraySpecifier { dimensions: vec![ArraySpecifierDimension::Unsized] },
    );
    assert_eq!(expr_string(&sum), "(a + b)[]");
}

#[test]
fn matrix_column_assignment_in_a_function() {
    let body = vec![
        local(TypeSpecifierNonArray::Mat3, "m", None),
        expression(Expr::Assignment(
            Box::new(Expr::Bracket(
                var("m"),
                ArraySpecifier {
                    dimensions: vec![ArraySpecifierDimension::ExplicitlySized(Box::new(Expr::IntConst(0)))],
                },
            )),
            AssignmentOp::Equal,
            Box::new(call("vec3<f32>", vec![Expr::FloatConst("1.".to_string())])),
        )),
    ];
    let tu = vec![function(TypeSpecifierNonArray::Void, "dum", vec![], body)];
    assert_eq!(
        unit(tu),
        "fn dum() -> () {\n\tvar m: mat3x3<f32>;\n\tm[0] = vec3<f32>(1.);\n} \n\n"
    );
}

#[test]
fn integer_arguments_in_a_vector_value_become_vectors() {
    let inner = || call("clamp", vec![*var("z"), Expr::IntConst(0), Expr::IntConst(1)]);
    let outer = call("clamp", vec![*var("v"), Expr::IntConst(0), inner()]);
    let body = vec![
        local(TypeSpecifierNonArray::Vec2, "x", Some(outer)),
        local(TypeSpecifierNonArray::Vec2, "z", None),
        expression(Expr::Assignment(var("z"), AssignmentOp::Equal, Box::new(inner()))),
    ];
    let tu = vec![function(TypeSpecifierNonArray::Void, "main", vec![], body)];
    assert_eq!(
        unit(tu),
        "fn main() -> () {\n\tlet x: vec2<f32> = clamp(v, vec2<f32>(0.), clamp(z, vec2<f32>(0.), vec2<f32>(1.)));\n\tvar z: vec2<f32>;\n\tz = clamp(z, 0, 1);\n} \n\n"
    );
}

#[test]
fn vector_constructor_arguments_stay_scalars() {
    let tu = vec![decl(
        TypeSpecifierNonArray::Vec4,
        "c",
        Some(call("vec4<f32>", vec![Expr::IntConst(1), call("max", vec![*var("a"), Expr::UIntConst(2)])])),
    )];
    assert_eq!(unit(tu), "let c: vec4<f32> = vec4<f32>(1., max(a, 2.));\n");
    let tu = vec![decl(
        TypeSpecifierNonArray::Vec3,
        "d",
        Some(Expr::Binary(BinaryOp::Add, var("a"), Box::new(call("min", vec![*var("b"), Expr::IntConst(4)])))),
    )];
    assert_eq!(unit(tu), "let d: vec3<f32> = a + min(b, vec3<f32>(4.));\n");
}

#[test]
fn float_type_test_agrees_with_printed_name() {
    let types = vec![
        TypeSpecifierNonArray::Float,
        TypeSpecifierNonArray::Vec3,
        TypeSpecifierNonArray::Mat23,
        TypeSpecifierNonArray::Int,
        TypeSpecifierNonArray::IVec2,
        TypeSpecifierNonArray::BVec4,
        TypeSpecifierNonArray::Sampler2D,
        TypeSpecifierNonArray::Void,
    ];
    for t in types {
        let mut w = String::new();
        show_type_specifier_non_array(&mut w, &t);
        assert_eq!(is_float(&t), is_float_str(&w));
    }
}
