use vstd::prelude::*;

verus! {

/// A (line, column) location in a source file, both 1-based.
#[derive(Debug, Clone, Copy, PartialEq, Eq, Default)]
pub struct Span {
    pub line: usize,
    pub column: usize,
}

/// One compilation unit: a named program.
#[derive(Debug, PartialEq)]
pub struct Module {
    pub name: String,
    pub program: Program,
}

#[derive(Debug, PartialEq)]
pub struct Program {
    pub items: Vec<Item>,
}

#[derive(Debug, PartialEq)]
pub struct Item {
    pub kind: ItemKind,
    pub span: Span,
}

impl Item {
    /// An item at no particular place in the source.
    pub fn dummy(kind: ItemKind) -> (r: Item)
        ensures
            r.kind == kind,
            r.span == (Span { line: 0, column: 0 }),
    {
        Item { kind, span: Span { line: 0, column: 0 } }
    }
}

#[derive(Debug, PartialEq)]
pub enum ItemKind {
    TypeAlias(TypeAliasDecl),
    Interface(InterfaceDecl),
    Struct(StructDecl),
    Function(FunctionDecl),
    Extend(ExtendDecl),
    Import(ImportDecl),
}

#[derive(Debug, Clone, PartialEq)]
pub struct ImportDecl {
    pub module: String,
    pub symbols: ImportSymbols,
}

#[derive(Debug, Clone, PartialEq)]
pub enum ImportSymbols {
    Glob,
    Named(Vec<ImportSymbol>),
}

#[derive(Debug, Clone, PartialEq)]
pub struct ImportSymbol {
    pub name: String,
    pub alias: Option<String>,
}

#[derive(Debug, PartialEq)]
pub struct TypeAliasDecl {
    pub name: String,
    pub generics: Vec<GenericParam>,
    pub ty: TypeExpr,
}

#[derive(Debug, PartialEq)]
pub struct GenericParam {
    pub name: String,
    pub bounds: Vec<TypeExpr>,
}

#[derive(Debug, PartialEq)]
pub enum TypeExpr {
    Primitive(PrimitiveType),
    Union(Vec<TypeExpr>),
    Named(String, Vec<TypeExpr>),
    /// (param_types) -> return_type
    Function(Vec<TypeExpr>, Box<TypeExpr>),
    /// `*T`, only in extern declarations.
    Pointer(Box<TypeExpr>),
    /// `extern (name: T, ...) => return_type`
    ExternFunction(Vec<ExternParam>, Box<TypeExpr>),
}

#[derive(Debug, PartialEq)]
pub struct ExternParam {
    pub name: String,
    pub ty: TypeExpr,
    pub is_pointer: bool,
}

#[derive(Debug, Clone, Copy, PartialEq, Eq)]
pub enum PrimitiveType {
    Int8,
    Int16,
    Int32,
    Int64,
    Uint8,
    Uint16,
    Uint32,
    Uint64,
    Float32,
    Float64,
    Bool,
    String,
    Char,
    Null,
}

#[derive(Debug, PartialEq)]
pub struct InterfaceDecl {
    pub name: String,
    pub generics: Vec<GenericParam>,
    pub implements: Vec<TypeExpr>,
    pub fields: Vec<FieldDecl>,
    pub methods: Vec<FunctionDecl>,
}

#[derive(Debug, PartialEq)]
pub struct FieldDecl {
    pub name: String,
    pub ty: TypeExpr,
    pub is_pointer: bool,
}

#[derive(Debug, PartialEq)]
pub struct FunctionDecl {
    pub name: String,
    pub has_self_param: bool,
    pub is_extern: bool,
    pub generics: Vec<GenericParam>,
    pub return_type: Option<TypeExpr>,
    pub params: Vec<ParamDecl>,
    pub body: Option<Block>,
    pub span: Span,
}

#[derive(Debug, PartialEq)]
pub struct ParamDecl {
    pub name: String,
    pub ty: TypeExpr,
    pub is_pointer: bool,
}

/// A braced block: statements and an optional final expression whose value
/// the block yields.
#[derive(Debug, PartialEq)]
pub struct Block {
    pub statements: Vec<Statement>,
    pub returns: Option<Expr>,
}

#[derive(Debug, PartialEq)]
pub enum Statement {
    /// `var x: T = e`
    VarDecl(String, Option<TypeExpr>, Option<Expr>),
    /// `return e`
    Return(Option<Expr>),
    /// `e`
    Expr(Expr),
    /// `for x in e { ... }`
    For(String, Expr, Block),
    /// `while e { ... }`
    While(Expr, Block),
    Break,
    Continue,
}

#[derive(Debug, PartialEq)]
pub enum Expr {
    /// `5`, `"hello"`, `true`
    Literal(Literal),
    /// `x`
    Variable(String),
    /// `if cond { then } else { else }`
    If(Box<Expr>, Box<Block>, Option<Box<Block>>),
    /// `f<T>(args)`
    Call(Box<Expr>, Vec<TypeExpr>, Vec<Expr>),
    /// `{ "x": 1, "y": 2 }`
    LiteralMap(Vec<(Expr, Expr)>),
    /// `[1, 2, 3]`
    LiteralList(Vec<Expr>),
    /// `Point { x: 1, y: 2 }`
    StructInit(TypeExpr, Vec<(String, Expr)>),
    /// `x as i32`
    As(Box<Expr>, TypeExpr),
    /// `x is i32`
    Is(Box<Expr>, TypeExpr),
    /// `point.x`
    Member(Box<Expr>, String),
    /// `x + y`
    BinaryOp(Box<Expr>, BinaryOperator, Box<Expr>),
    /// `-x`
    UnaryOp(UnaryOperator, Box<Expr>),
    /// `(x: i64): i64 { ... }`
    FunctionLiteral(Vec<GenericParam>, Vec<ParamDecl>, Option<TypeExpr>, Box<Block>),
    /// `{ stmt; stmt; expr }`
    Block(Box<Block>),
}

#[derive(Debug, PartialEq)]
pub enum Literal {
    Int(String),
    Float(String),
    String(String),
    Char(char),
    Bool(bool),
    Null,
}

#[derive(Debug, Clone, Copy, PartialEq, Eq)]
pub enum BinaryOperator {
    Add,
    Sub,
    Mul,
    Div,
    Mod,
    And,
    Or,
    Eq,
    Neq,
    Lt,
    Le,
    Gt,
    Ge,
}

#[derive(Debug, Clone, Copy, PartialEq, Eq)]
pub enum UnaryOperator {
    Neg,
    Not,
}

#[derive(Debug, PartialEq)]
pub struct StructDecl {
    pub name: String,
    pub is_extern: bool,
    pub generics: Vec<GenericParam>,
    pub fields: Vec<FieldDecl>,
    pub methods: Vec<FunctionDecl>,
    /// Interfaces this struct implements.
    pub implements: Vec<TypeExpr>,
}

#[derive(Debug, PartialEq)]
pub struct ExtendDecl {
    pub target: TypeExpr,
    pub generic_params: Vec<GenericParam>,
    pub implements: Vec<TypeExpr>,
    pub methods: Vec<FunctionDecl>,
}

} // verus!
