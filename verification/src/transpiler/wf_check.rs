//! Tests whether a syntax tree meets what the printer asks of it: the lists
//! that the GLSL grammar never leaves empty have an element, and function
//! bodies do not nest too deeply for the indentation.

use vstd::prelude::*;
use crate::syntax::{
    CompoundStatement, Condition, Declaration, ExternalDeclaration, ForInitStatement,
    FunctionParameterDeclaration, FunctionPrototype, Initializer,
    InitDeclaratorList, IterationStatement, SelectionRestStatement, SimpleStatement,
    SingleDeclaration, Statement, StructFieldSpecifier, TranslationUnit, TypeQualifier,
    TypeQualifierSpec, TypeSpecifier, TypeSpecifierNonArray,
};
use crate::transpiler::wgsl_text::{
    compound_depth, simple_statement_depth, statement_depth, statements_depth, wf_compound,
    wf_condition, wf_declaration, wf_external_declaration, wf_field, wf_init_declarator_list,
    wf_initializer, wf_opt_qualifier, wf_parameter, wf_prototype, wf_qualifier_spec,
    wf_simple_statement, wf_single_declaration, wf_statement, wf_translation_unit,
    wf_type_qualifier, wf_type_specifier,
};

verus! {

/// A depth, or `2^31` where it is larger.
pub open spec fn capped(n: nat) -> nat {
    if n > 2147483648 {
        2147483648
    } else {
        n
    }
}

fn qualifier_spec_ok(q: &TypeQualifierSpec) -> (b: bool)
    ensures
        b == wf_qualifier_spec(*q),
{
    match q {
        TypeQualifierSpec::Layout(l) => l.ids.len() > 0,
        _ => true,
    }
}

fn type_qualifier_ok(q: &TypeQualifier) -> (b: bool)
    ensures
        b == wf_type_qualifier(*q),
{
    if q.qualifiers.len() == 0 {
        return false;
    }
    let mut k: usize = 0;
    while k < q.qualifiers.len()
        invariant
            k <= q.qualifiers.len(),
            forall|j: int| 0 <= j < k ==> wf_qualifier_spec(#[trigger] q.qualifiers@[j]),
        decreases q.qualifiers.len() - k,
    {
        if !qualifier_spec_ok(&q.qualifiers[k]) {
            return false;
        }
        k = k + 1;
    }
    true
}

fn opt_qualifier_ok(q: &Option<TypeQualifier>) -> (b: bool)
    ensures
        b == wf_opt_qualifier(*q),
{
    match q {
        Some(q) => type_qualifier_ok(q),
        None => true,
    }
}

fn field_ok(fld: &StructFieldSpecifier) -> (b: bool)
    ensures
        b == wf_field(*fld),
    decreases fld,
{
    fld.identifiers.len() > 0 && opt_qualifier_ok(&fld.qualifier) && type_specifier_ok(&fld.ty)
}

fn fields_ok(v: &Vec<StructFieldSpecifier>) -> (b: bool)
    ensures
        b == (forall|k: int| 0 <= k < v@.len() ==> wf_field(#[trigger] v@[k])),
    decreases v,
{
    let mut k: usize = 0;
    while k < v.len()
        invariant
            k <= v.len(),
            forall|j: int| 0 <= j < k ==> wf_field(#[trigger] v@[j]),
        decreases v.len() - k,
    {
        if !field_ok(&v[k]) {
            return false;
        }
        k = k + 1;
    }
    true
}

fn type_specifier_ok(t: &TypeSpecifier) -> (b: bool)
    ensures
        b == wf_type_specifier(*t),
    decreases t,
{
    match &t.ty {
        TypeSpecifierNonArray::Struct(s) => fields_ok(&s.fields),
        _ => true,
    }
}

fn initializer_ok(ini: &Initializer) -> (b: bool)
    ensures
        b == wf_initializer(*ini),
    decreases ini,
{
    match ini {
        Initializer::Simple(_) => true,
        Initializer::List(l) => l.len() > 0 && initializers_ok(l),
    }
}

fn initializers_ok(l: &Vec<Initializer>) -> (b: bool)
    ensures
        b == (forall|k: int| 0 <= k < l@.len() ==> wf_initializer(#[trigger] l@[k])),
    decreases l,
{
    let mut k: usize = 0;
    while k < l.len()
        invariant
            k <= l.len(),
            forall|j: int| 0 <= j < k ==> wf_initializer(#[trigger] l@[j]),
        decreases l.len() - k,
    {
        if !initializer_ok(&l[k]) {
            return false;
        }
        k = k + 1;
    }
    true
}

fn parameter_ok(p: &FunctionParameterDeclaration) -> (b: bool)
    ensures
        b == wf_parameter(*p),
{
    match p {
        FunctionParameterDeclaration::Named(q, d) => opt_qualifier_ok(q) && type_specifier_ok(&d.ty),
        FunctionParameterDeclaration::Unnamed(q, ty) => opt_qualifier_ok(q) && type_specifier_ok(ty),
    }
}

fn prototype_ok(fp: &FunctionPrototype) -> (b: bool)
    ensures
        b == wf_prototype(*fp),
{
    if !type_specifier_ok(&fp.ty.ty) {
        return false;
    }
    let mut k: usize = 0;
    while k < fp.parameters.len()
        invariant
            k <= fp.parameters.len(),
            forall|j: int| 0 <= j < k ==> wf_parameter(#[trigger] fp.parameters@[j]),
        decreases fp.parameters.len() - k,
    {
        if !parameter_ok(&fp.parameters[k]) {
            return false;
        }
        k = k + 1;
    }
    true
}

fn opt_initializer_ok(ini: &Option<Initializer>) -> (b: bool)
    ensures
        b == match *ini {
            Some(i) => wf_initializer(i),
            None => true,
        },
{
    match ini {
        Some(i) => initializer_ok(i),
        None => true,
    }
}

fn single_declaration_ok(d: &SingleDeclaration) -> (b: bool)
    ensures
        b == wf_single_declaration(*d),
{
    type_specifier_ok(&d.ty.ty) && opt_qualifier_ok(&d.ty.qualifier) && opt_initializer_ok(
        &d.initializer,
    )
}

fn init_declarator_list_ok(l: &InitDeclaratorList) -> (b: bool)
    ensures
        b == wf_init_declarator_list(*l),
{
    if !single_declaration_ok(&l.head) {
        return false;
    }
    let mut k: usize = 0;
    while k < l.tail.len()
        invariant
            k <= l.tail.len(),
            forall|j: int|
                0 <= j < k ==> match (#[trigger] l.tail@[j]).initializer {
                    Some(ini) => wf_initializer(ini),
                    None => true,
                },
        decreases l.tail.len() - k,
    {
        if !opt_initializer_ok(&l.tail[k].initializer) {
            return false;
        }
        k = k + 1;
    }
    true
}

/// Whether a declaration meets what the printer asks of it.
pub fn declaration_ok(d: &Declaration) -> (b: bool)
    ensures
        b == wf_declaration(*d),
{
    match d {
        Declaration::FunctionPrototype(p) => prototype_ok(p),
        Declaration::InitDeclaratorList(l) => init_declarator_list_ok(l),
        Declaration::Precision(_, ty) => type_specifier_ok(ty),
        Declaration::Block(b) => type_qualifier_ok(&b.qualifier) && fields_ok(&b.fields),
        Declaration::Global(q, _) => type_qualifier_ok(q),
    }
}

fn condition_ok(c: &Condition) -> (b: bool)
    ensures
        b == wf_condition(*c),
{
    match c {
        Condition::Expr(_) => true,
        Condition::Assignment(t, _, ini) => type_specifier_ok(&t.ty) && initializer_ok(ini),
    }
}

fn statement_ok(st: &Statement) -> (b: bool)
    ensures
        b == wf_statement(*st),
    decreases st,
{
    match st {
        Statement::Compound(c) => compound_ok(c),
        Statement::Simple(s) => simple_statement_ok(s),
    }
}

fn compound_ok(c: &CompoundStatement) -> (b: bool)
    ensures
        b == wf_compound(*c),
    decreases c,
{
    statements_ok(&c.statement_list)
}

fn statements_ok(v: &Vec<Statement>) -> (b: bool)
    ensures
        b == (forall|k: int| 0 <= k < v@.len() ==> wf_statement(#[trigger] v@[k])),
    decreases v,
{
    let mut k: usize = 0;
    while k < v.len()
        invariant
            k <= v.len(),
            forall|j: int| 0 <= j < k ==> wf_statement(#[trigger] v@[j]),
        decreases v.len() - k,
    {
        if !statement_ok(&v[k]) {
            return false;
        }
        k = k + 1;
    }
    true
}

fn simple_statement_ok(s: &SimpleStatement) -> (b: bool)
    ensures
        b == wf_simple_statement(*s),
    decreases s,
{
    match s {
        SimpleStatement::Declaration(d) => declaration_ok(d),
        SimpleStatement::Selection(sel) => match &sel.rest {
            SelectionRestStatement::Statement(st) => statement_ok(st),
            SelectionRestStatement::Else(a, b) => statement_ok(a) && statement_ok(b),
        },
        SimpleStatement::Switch(sw) => statements_ok(&sw.body),
        SimpleStatement::Iteration(it) => match it {
            IterationStatement::While(c, body) => condition_ok(c) && statement_ok(body),
            IterationStatement::DoWhile(body, _) => statement_ok(body),
            IterationStatement::For(init, rest, body) => {
                let init_ok = match init {
                    ForInitStatement::Declaration(d) => declaration_ok(d),
                    _ => true,
                };
                let rest_ok = match &rest.condition {
                    Some(c) => condition_ok(c),
                    None => true,
                };
                init_ok && rest_ok && statement_ok(body)
            },
        },
        _ => true,
    }
}

fn next_depth(d: u64) -> (r: u64)
    requires
        d <= 2147483648,
    ensures
        r == if d == 2147483648 {
            2147483648
        } else {
            d + 1
        },
{
    if d == 2147483648 {
        d
    } else {
        d + 1
    }
}

fn statement_depth_capped(st: &Statement) -> (r: u64)
    ensures
        r == capped(statement_depth(*st)),
    decreases st,
{
    match st {
        Statement::Compound(c) => compound_depth_capped(c),
        Statement::Simple(s) => simple_depth_capped(s),
    }
}

fn compound_depth_capped(c: &CompoundStatement) -> (r: u64)
    ensures
        r == capped(compound_depth(*c)),
    decreases c,
{
    next_depth(statements_depth_capped(&c.statement_list))
}

fn statements_depth_capped(v: &Vec<Statement>) -> (r: u64)
    ensures
        r == capped(statements_depth(v@)),
    decreases v,
{
    let mut d: u64 = 0;
    let mut k: usize = 0;
    while k < v.len()
        invariant
            k <= v.len(),
            d == capped(statements_depth(v@.take(k as int))),
        decreases v.len() - k,
    {
        let e = statement_depth_capped(&v[k]);
        assert(v@.take(k + 1).drop_last() =~= v@.take(k as int));
        if e > d {
            d = e;
        }
        k = k + 1;
    }
    assert(v@.take(v.len() as int) =~= v@);
    d
}

fn simple_depth_capped(s: &SimpleStatement) -> (r: u64)
    ensures
        r == capped(simple_statement_depth(*s)),
    decreases s,
{
    match s {
        SimpleStatement::Declaration(_) => 2,
        SimpleStatement::Selection(sel) => match &sel.rest {
            SelectionRestStatement::Statement(st) => statement_depth_capped(st),
            SelectionRestStatement::Else(a, b) => {
                let x = statement_depth_capped(a);
                let y = statement_depth_capped(b);
                if x >= y {
                    x
                } else {
                    y
                }
            },
        },
        SimpleStatement::Switch(sw) => next_depth(statements_depth_capped(&sw.body)),
        SimpleStatement::CaseLabel(_) => 1,
        SimpleStatement::Iteration(it) => match it {
            IterationStatement::While(_, body) => statement_depth_capped(body),
            IterationStatement::DoWhile(body, _) => statement_depth_capped(body),
            IterationStatement::For(_, _, body) => statement_depth_capped(body),
        },
        _ => 0,
    }
}

fn external_declaration_ok(ed: &ExternalDeclaration) -> (b: bool)
    ensures
        b == wf_external_declaration(*ed, 0),
{
    match ed {
        ExternalDeclaration::Preprocessor(_) => true,
        ExternalDeclaration::FunctionDefinition(fd) => {
            prototype_ok(&fd.prototype) && compound_ok(&fd.statement) && compound_depth_capped(
                &fd.statement,
            ) <= 2147483647
        },
        ExternalDeclaration::Declaration(d) => declaration_ok(d),
    }
}

/// Whether the program meets what `show_translation_unit` asks of it: no
/// list that the GLSL grammar never leaves empty is empty, and no function
/// body nests more deeply than `i32::MAX` levels.
pub fn translation_unit_ok(tu: &TranslationUnit) -> (b: bool)
    ensures
        b == wf_translation_unit(*tu),
{
    let mut k: usize = 0;
    while k < tu.0.len()
        invariant
            k <= tu.0.len(),
            forall|j: int| 0 <= j < k ==> wf_external_declaration(#[trigger] tu.0@[j], 0),
        decreases tu.0.len() - k,
    {
        if !external_declaration_ok(&tu.0[k]) {
            return false;
        }
        k = k + 1;
    }
    true
}

} // verus!
