//! The syntax tree of a GLSL program, as the printer reads it.
//!
//! Lists that GLSL requires to hold at least one element are plain vectors
//! here; the printer's contracts ask for them to be non-empty where it reads
//! their first element.

use vstd::prelude::*;

verus! {

/// A name as written in the source.
#[derive(Debug, PartialEq)]
pub struct Identifier(pub String);

/// The name of a user-defined type.
#[derive(Debug, PartialEq)]
pub struct TypeName(pub String);

/// The path of an `#include`.
#[derive(Debug, PartialEq)]
pub enum Path {
    /// `<...>`
    Absolute(String),
    /// `"..."`
    Relative(String),
}

/// A type without array dimensions.
#[derive(Debug, PartialEq)]
pub enum TypeSpecifierNonArray {
    Void,
    Bool,
    Int,
    UInt,
    Float,
    Double,
    Vec2,
    Vec3,
    Vec4,
    DVec2,
    DVec3,
    DVec4,
    BVec2,
    BVec3,
    BVec4,
    IVec2,
    IVec3,
    IVec4,
    UVec2,
    UVec3,
    UVec4,
    Mat2,
    Mat3,
    Mat4,
    Mat23,
    Mat24,
    Mat32,
    Mat34,
    Mat42,
    Mat43,
    DMat2,
    DMat3,
    DMat4,
    DMat23,
    DMat24,
    DMat32,
    DMat34,
    DMat42,
    DMat43,
    Sampler1D,
    Image1D,
    Sampler2D,
    Image2D,
    Sampler3D,
    Image3D,
    SamplerCube,
    ImageCube,
    Sampler2DRect,
    Image2DRect,
    Sampler1DArray,
    Image1DArray,
    Sampler2DArray,
    Image2DArray,
    SamplerBuffer,
    ImageBuffer,
    Sampler2DMS,
    Image2DMS,
    Sampler2DMSArray,
    Image2DMSArray,
    SamplerCubeArray,
    ImageCubeArray,
    Sampler1DShadow,
    Sampler2DShadow,
    Sampler2DRectShadow,
    Sampler1DArrayShadow,
    Sampler2DArrayShadow,
    SamplerCubeShadow,
    SamplerCubeArrayShadow,
    ISampler1D,
    IImage1D,
    ISampler2D,
    IImage2D,
    ISampler3D,
    IImage3D,
    ISamplerCube,
    IImageCube,
    ISampler2DRect,
    IImage2DRect,
    ISampler1DArray,
    IImage1DArray,
    ISampler2DArray,
    IImage2DArray,
    ISamplerBuffer,
    IImageBuffer,
    ISampler2DMS,
    IImage2DMS,
    ISampler2DMSArray,
    IImage2DMSArray,
    ISamplerCubeArray,
    IImageCubeArray,
    AtomicUInt,
    USampler1D,
    UImage1D,
    USampler2D,
    UImage2D,
    USampler3D,
    UImage3D,
    USamplerCube,
    UImageCube,
    USampler2DRect,
    UImage2DRect,
    USampler1DArray,
    UImage1DArray,
    USampler2DArray,
    UImage2DArray,
    USamplerBuffer,
    UImageBuffer,
    USampler2DMS,
    UImage2DMS,
    USampler2DMSArray,
    UImage2DMSArray,
    USamplerCubeArray,
    UImageCubeArray,
    Struct(StructSpecifier),
    TypeName(TypeName),
}

/// A type with its optional array dimensions.
#[derive(Debug, PartialEq)]
pub struct TypeSpecifier {
    pub ty: TypeSpecifierNonArray,
    pub array_specifier: Option<ArraySpecifier>,
}

/// A struct type.
#[derive(Debug, PartialEq)]
pub struct StructSpecifier {
    pub name: Option<TypeName>,
    pub fields: Vec<StructFieldSpecifier>,
}

/// A field (or several fields of one type) of a struct or block.
#[derive(Debug, PartialEq)]
pub struct StructFieldSpecifier {
    pub qualifier: Option<TypeQualifier>,
    pub ty: TypeSpecifier,
    pub identifiers: Vec<ArrayedIdentifier>,
}

/// A name with optional array dimensions.
#[derive(Debug, PartialEq)]
pub struct ArrayedIdentifier {
    pub ident: Identifier,
    pub array_spec: Option<ArraySpecifier>,
}

/// A list of type qualifiers.
#[derive(Debug, PartialEq)]
pub struct TypeQualifier {
    pub qualifiers: Vec<TypeQualifierSpec>,
}

/// One type qualifier.
#[derive(Debug, PartialEq)]
pub enum TypeQualifierSpec {
    Storage(StorageQualifier),
    Layout(LayoutQualifier),
    Precision(PrecisionQualifier),
    Interpolation(InterpolationQualifier),
    Invariant,
    Precise,
}

/// A storage qualifier.
#[derive(Debug, PartialEq)]
pub enum StorageQualifier {
    Const,
    InOut,
    In,
    Out,
    Centroid,
    Patch,
    Sample,
    Uniform,
    Attribute,
    Varying,
    Buffer,
    Shared,
    Coherent,
    Volatile,
    Restrict,
    ReadOnly,
    WriteOnly,
    Subroutine(Vec<TypeName>),
}

/// A layout qualifier: `layout (...)`.
#[derive(Debug, PartialEq)]
pub struct LayoutQualifier {
    pub ids: Vec<LayoutQualifierSpec>,
}

/// One entry of a layout qualifier.
#[derive(Debug, PartialEq)]
pub enum LayoutQualifierSpec {
    Identifier(Identifier, Option<Box<Expr>>),
    Shared,
}

/// A precision qualifier.
#[derive(Debug, Clone, Copy, PartialEq, Eq)]
pub enum PrecisionQualifier {
    High,
    Medium,
    Low,
}

/// An interpolation qualifier.
#[derive(Debug, Clone, Copy, PartialEq, Eq)]
pub enum InterpolationQualifier {
    Smooth,
    Flat,
    NoPerspective,
}

/// A type with its qualifiers.
#[derive(Debug, PartialEq)]
pub struct FullySpecifiedType {
    pub qualifier: Option<TypeQualifier>,
    pub ty: TypeSpecifier,
}

/// The dimensions of an array.
#[derive(Debug, PartialEq)]
pub struct ArraySpecifier {
    pub dimensions: Vec<ArraySpecifierDimension>,
}

/// One array dimension.
#[derive(Debug, PartialEq)]
pub enum ArraySpecifierDimension {
    Unsized,
    ExplicitlySized(Box<Expr>),
}

/// A declaration.
#[derive(Debug, PartialEq)]
pub enum Declaration {
    FunctionPrototype(FunctionPrototype),
    InitDeclaratorList(InitDeclaratorList),
    Precision(PrecisionQualifier, TypeSpecifier),
    Block(Block),
    Global(TypeQualifier, Vec<Identifier>),
}

/// An interface block.
#[derive(Debug, PartialEq)]
pub struct Block {
    pub qualifier: TypeQualifier,
    pub name: Identifier,
    pub fields: Vec<StructFieldSpecifier>,
    pub identifier: Option<ArrayedIdentifier>,
}

/// What is called in a function call.
#[derive(Debug, PartialEq)]
pub enum FunIdentifier {
    Identifier(Identifier),
    Expr(Box<Expr>),
}

/// The head of a function: return type, name and parameters.
#[derive(Debug, PartialEq)]
pub struct FunctionPrototype {
    pub ty: FullySpecifiedType,
    pub name: Identifier,
    pub parameters: Vec<FunctionParameterDeclaration>,
}

/// A function parameter.
#[derive(Debug, PartialEq)]
pub enum FunctionParameterDeclaration {
    Named(Option<TypeQualifier>, FunctionParameterDeclarator),
    Unnamed(Option<TypeQualifier>, TypeSpecifier),
}

/// A named function parameter.
#[derive(Debug, PartialEq)]
pub struct FunctionParameterDeclarator {
    pub ty: TypeSpecifier,
    pub ident: ArrayedIdentifier,
}

/// One or more variables declared with one type.
#[derive(Debug, PartialEq)]
pub struct InitDeclaratorList {
    pub head: SingleDeclaration,
    pub tail: Vec<SingleDeclarationNoType>,
}

/// The first variable of a declaration list.
#[derive(Debug, PartialEq)]
pub struct SingleDeclaration {
    pub ty: FullySpecifiedType,
    pub name: Option<Identifier>,
    pub array_specifier: Option<ArraySpecifier>,
    pub initializer: Option<Initializer>,
}

/// A further variable of a declaration list.
#[derive(Debug, PartialEq)]
pub struct SingleDeclarationNoType {
    pub ident: ArrayedIdentifier,
    pub initializer: Option<Initializer>,
}

/// The value a variable starts with.
#[derive(Debug, PartialEq)]
pub enum Initializer {
    Simple(Box<Expr>),
    List(Vec<Initializer>),
}

/// An expression. A floating-point constant is held as the WGSL text that
/// stands for it.
#[derive(Debug, PartialEq)]
pub enum Expr {
    Variable(Identifier),
    IntConst(i32),
    UIntConst(u32),
    BoolConst(bool),
    FloatConst(String),
    DoubleConst(String),
    Unary(UnaryOp, Box<Expr>),
    Binary(BinaryOp, Box<Expr>, Box<Expr>),
    Ternary(Box<Expr>, Box<Expr>, Box<Expr>),
    TernaryWGSL(Identifier, Box<Expr>, Box<Expr>, Box<Expr>),
    Assignment(Box<Expr>, AssignmentOp, Box<Expr>),
    Bracket(Box<Expr>, ArraySpecifier),
    FunCall(FunIdentifier, Vec<Expr>),
    Dot(Box<Expr>, Identifier),
    PostInc(Box<Expr>),
    PostDec(Box<Expr>),
    Comma(Box<Expr>, Box<Expr>),
}

/// A unary operator.
#[derive(Debug, Clone, Copy, PartialEq, Eq, Structural)]
pub enum UnaryOp {
    Inc,
    Dec,
    Add,
    Minus,
    Not,
    Complement,
}

/// A binary operator.
#[derive(Debug, Clone, Copy, PartialEq, Eq)]
pub enum BinaryOp {
    Or,
    Xor,
    And,
    BitOr,
    BitXor,
    BitAnd,
    Equal,
    NonEqual,
    LT,
    GT,
    LTE,
    GTE,
    LShift,
    RShift,
    Add,
    Sub,
    Mult,
    Div,
    Mod,
}

/// An assignment operator.
#[derive(Debug, Clone, Copy, PartialEq, Eq)]
pub enum AssignmentOp {
    Equal,
    Mult,
    Div,
    Mod,
    Add,
    Sub,
    LShift,
    RShift,
    And,
    Xor,
    Or,
}

/// A whole program.
#[derive(Debug, PartialEq)]
pub struct TranslationUnit(pub Vec<ExternalDeclaration>);

/// A top-level item.
#[derive(Debug, PartialEq)]
pub enum ExternalDeclaration {
    Preprocessor(Preprocessor),
    FunctionDefinition(FunctionDefinition),
    Declaration(Declaration),
}

/// A function with its body.
#[derive(Debug, PartialEq)]
pub struct FunctionDefinition {
    pub prototype: FunctionPrototype,
    pub statement: CompoundStatement,
}

/// A `{ ... }` list of statements.
#[derive(Debug, PartialEq)]
pub struct CompoundStatement {
    pub statement_list: Vec<Statement>,
}

/// A statement.
#[derive(Debug, PartialEq)]
pub enum Statement {
    Compound(Box<CompoundStatement>),
    Simple(Box<SimpleStatement>),
}

/// A statement that is not a compound statement.
#[derive(Debug, PartialEq)]
pub enum SimpleStatement {
    Declaration(Declaration),
    Expression(ExprStatement),
    Selection(SelectionStatement),
    Switch(SwitchStatement),
    CaseLabel(CaseLabel),
    Iteration(IterationStatement),
    Jump(JumpStatement),
}

/// An expression statement; `None` is the empty statement `;`.
pub type ExprStatement = Option<Expr>;

/// An `if` statement.
#[derive(Debug, PartialEq)]
pub struct SelectionStatement {
    pub cond: Box<Expr>,
    pub rest: SelectionRestStatement,
}

/// The condition of a `while` loop or of a `for` loop.
#[derive(Debug, PartialEq)]
pub enum Condition {
    Expr(Box<Expr>),
    Assignment(FullySpecifiedType, Identifier, Initializer),
}

/// The branches of an `if` statement.
#[derive(Debug, PartialEq)]
pub enum SelectionRestStatement {
    Statement(Box<Statement>),
    Else(Box<Statement>, Box<Statement>),
}

/// A `switch` statement.
#[derive(Debug, PartialEq)]
pub struct SwitchStatement {
    pub head: Box<Expr>,
    pub body: Vec<Statement>,
}

/// A `case` or `default` label.
#[derive(Debug, PartialEq)]
pub enum CaseLabel {
    Case(Box<Expr>),
    Def,
}

/// A loop.
#[derive(Debug, PartialEq)]
pub enum IterationStatement {
    While(Condition, Box<Statement>),
    DoWhile(Box<Statement>, Box<Expr>),
    For(ForInitStatement, ForRestStatement, Box<Statement>),
}

/// The first part of a `for` header.
#[derive(Debug, PartialEq)]
pub enum ForInitStatement {
    Expression(Option<Expr>),
    Declaration(Box<Declaration>),
}

/// The condition and step of a `for` header.
#[derive(Debug, PartialEq)]
pub struct ForRestStatement {
    pub condition: Option<Condition>,
    pub post_expr: Option<Box<Expr>>,
}

/// A jump.
#[derive(Debug, PartialEq)]
pub enum JumpStatement {
    Continue,
    Break,
    Return(Option<Box<Expr>>),
    Discard,
}

/// A preprocessor directive.
#[derive(Debug, PartialEq)]
pub enum Preprocessor {
    Define(PreprocessorDefine),
    Else,
    ElseIf(PreprocessorElseIf),
    EndIf,
    Error(PreprocessorError),
    If(PreprocessorIf),
    IfDef(PreprocessorIfDef),
    IfNDef(PreprocessorIfNDef),
    Include(PreprocessorInclude),
    Line(PreprocessorLine),
    Pragma(PreprocessorPragma),
    Undef(PreprocessorUndef),
    Version(PreprocessorVersion),
    Extension(PreprocessorExtension),
}

/// `#define`
#[derive(Debug, PartialEq)]
pub enum PreprocessorDefine {
    ObjectLike { ident: Identifier, value: String },
    FunctionLike { ident: Identifier, args: Vec<Identifier>, value: String },
}

/// `#elseif`
#[derive(Debug, PartialEq)]
pub struct PreprocessorElseIf {
    pub condition: String,
}

/// `#error`
#[derive(Debug, PartialEq)]
pub struct PreprocessorError {
    pub message: String,
}

/// `#if`
#[derive(Debug, PartialEq)]
pub struct PreprocessorIf {
    pub condition: String,
}

/// `#ifdef`
#[derive(Debug, PartialEq)]
pub struct PreprocessorIfDef {
    pub ident: Identifier,
}

/// `#ifndef`
#[derive(Debug, PartialEq)]
pub struct PreprocessorIfNDef {
    pub ident: Identifier,
}

/// `#include`
#[derive(Debug, PartialEq)]
pub struct PreprocessorInclude {
    pub path: Path,
}

/// `#line`
#[derive(Debug, PartialEq)]
pub struct PreprocessorLine {
    pub line: u32,
    pub source_string_number: Option<u32>,
}

/// `#pragma`
#[derive(Debug, PartialEq)]
pub struct PreprocessorPragma {
    pub command: String,
}

/// `#undef`
#[derive(Debug, PartialEq)]
pub struct PreprocessorUndef {
    pub name: Identifier,
}

/// `#version`
#[derive(Debug, PartialEq)]
pub struct PreprocessorVersion {
    pub version: u16,
    pub profile: Option<PreprocessorVersionProfile>,
}

/// The profile of a `#version`.
#[derive(Debug, Clone, Copy, PartialEq, Eq)]
pub enum PreprocessorVersionProfile {
    Core,
    Compatibility,
    ES,
}

/// `#extension`
#[derive(Debug, PartialEq)]
pub struct PreprocessorExtension {
    pub name: PreprocessorExtensionName,
    pub behavior: Option<PreprocessorExtensionBehavior>,
}

/// The extension an `#extension` names.
#[derive(Debug, PartialEq)]
pub enum PreprocessorExtensionName {
    All,
    Specific(String),
}

/// The behaviour an `#extension` asks for.
#[derive(Debug, Clone, Copy, PartialEq, Eq)]
pub enum PreprocessorExtensionBehavior {
    Require,
    Enable,
    Warn,
    Disable,
}

} // verus!
