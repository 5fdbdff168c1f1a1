use vstd::prelude::*;

verus! {

#[derive(Debug, Clone, Copy, PartialEq, Eq, Hash, Structural)]
pub struct ModuleId(pub u32);

#[derive(Debug, Clone, Copy, PartialEq, Eq, Hash, Structural)]
pub struct TypeId(pub u32);

#[derive(Debug, Clone, Copy, PartialEq, Eq, Hash, Structural)]
pub struct FnId(pub u32);

#[derive(Debug, Clone, Copy, PartialEq, Eq, Hash, Structural)]
pub struct TypeParamId(pub u32);

#[derive(Debug, Clone)]
pub struct TypeParamInfo {
    pub id: TypeParamId,
    pub name: String,
    /// Interfaces this parameter must implement.
    pub bounds: Vec<TypeId>,
}

#[derive(Debug, Clone)]
pub struct HirModule {
    pub id: ModuleId,
    pub name: String,
    pub structs: Vec<TypeId>,
    pub interfaces: Vec<TypeId>,
    pub functions: Vec<FnId>,
    pub imports: Vec<HirImport>,
}

#[derive(Debug, Clone)]
pub enum HirImport {
    Glob(ModuleId),
    Named(ModuleId, Vec<HirImportSymbol>),
}

#[derive(Debug, Clone)]
pub enum HirImportSymbol {
    /// (resolved id, local name)
    Type(TypeId, String),
    /// (resolved id, local name)
    Function(FnId, String),
    Alias {
        source: ModuleId,
        /// Alias name in the source module.
        original: String,
        /// Local name in the importing module.
        local: String,
    },
}

#[derive(Debug, Clone, Copy, PartialEq, Eq, Hash, Structural)]
pub enum PrimitiveType {
    Int8,
    Int16,
    Int32,
    Int64,
    Uint8,
    Uint16,
    Uint32,
    Uint64,
    Float32,
    Float64,
    Bool,
    String,
    Char,
}

/// A type after name resolution.
#[derive(Debug, Eq)]
pub enum ResolvedType {
    Primitive(PrimitiveType),
    /// `Foo<i32, str>`
    Struct(TypeId, Vec<ResolvedType>),
    Interface(TypeId, Vec<ResolvedType>),
    Union(Vec<ResolvedType>),
    Function(Vec<ResolvedType>, Box<ResolvedType>),
    /// A generic parameter, substituted later.
    TypeParam(TypeParamId),
    Null,
}

/// The mathematical model of a `ResolvedType`.
pub enum TypeModel {
    Primitive(PrimitiveType),
    Struct(u32, Seq<TypeModel>),
    Interface(u32, Seq<TypeModel>),
    Union(Seq<TypeModel>),
    Function(Seq<TypeModel>, Box<TypeModel>),
    TypeParam(u32),
    Null,
}

/// The model of a resolved type.
pub open spec fn model(t: ResolvedType) -> TypeModel
    decreases t,
{
    match t {
        ResolvedType::Primitive(p) => TypeModel::Primitive(p),
        ResolvedType::Struct(id, args) => TypeModel::Struct(id.0, models(args@)),
        ResolvedType::Interface(id, args) => TypeModel::Interface(id.0, models(args@)),
        ResolvedType::Union(parts) => TypeModel::Union(models(parts@)),
        ResolvedType::Function(params, ret) => TypeModel::Function(
            models(params@),
            Box::new(model(*ret)),
        ),
        ResolvedType::TypeParam(id) => TypeModel::TypeParam(id.0),
        ResolvedType::Null => TypeModel::Null,
    }
}

/// The models of a sequence of resolved types.
pub open spec fn models(s: Seq<ResolvedType>) -> Seq<TypeModel>
    decreases s,
{
    if s.len() == 0 {
        Seq::empty()
    } else {
        models(s.drop_last()).push(model(s.last()))
    }
}

impl View for ResolvedType {
    type V = TypeModel;

    open spec fn view(&self) -> TypeModel {
        model(*self)
    }
}

/// Copies a list of types.
pub fn clone_types(v: &Vec<ResolvedType>) -> (r: Vec<ResolvedType>)
    ensures
        models(r@) == models(v@),
    decreases v, 0nat,
{
    let mut out: Vec<ResolvedType> = Vec::new();
    let mut i: usize = 0;
    while i < v.len()
        invariant
            i <= v@.len(),
            out@.len() == i,
            forall|j: int| 0 <= j < i ==> model(#[trigger] out@[j]) == model(v@[j]),
        decreases v@.len() - i,
    {
        proof {
            assert(decreases_to!(v => v@[i as int]));
        }
        out.push(v[i].clone());
        i = i + 1;
    }
    proof {
        lemma_models(out@);
        lemma_models(v@);
    }
    assert(models(out@) =~= models(v@));
    out
}

/// Whether two lists of types are equal, element by element.
pub fn types_eq(a: &Vec<ResolvedType>, b: &Vec<ResolvedType>) -> (r: bool)
    ensures
        r == (models(a@) == models(b@)),
    decreases a, 0nat,
{
    proof {
        lemma_models(a@);
        lemma_models(b@);
    }
    if a.len() != b.len() {
        return false;
    }
    let mut i: usize = 0;
    while i < a.len()
        invariant
            i <= a@.len(),
            a@.len() == b@.len(),
            forall|j: int| 0 <= j < i ==> model(a@[j]) == model(b@[j]),
        decreases a@.len() - i,
    {
        proof {
            assert(decreases_to!(a => a@[i as int]));
        }
        if !a[i].eq(&b[i]) {
            proof {
                lemma_models(a@);
                lemma_models(b@);
            }
            assert(models(a@)[i as int] != models(b@)[i as int]);
            return false;
        }
        i = i + 1;
    }
    assert(models(a@) =~= models(b@));
    true
}

impl Clone for ResolvedType {
    fn clone(&self) -> (r: Self)
        ensures
            r@ == self@,
        decreases self, 1nat,
    {
        match self {
            ResolvedType::Primitive(p) => {
                let r = ResolvedType::Primitive(*p);
                assert(model(r) == model(*self));
                r
            },
            ResolvedType::Struct(id, args) => {
                let r = ResolvedType::Struct(*id, clone_types(args));
                assert(model(r) == model(*self));
                r
            },
            ResolvedType::Interface(id, args) => {
                let r = ResolvedType::Interface(*id, clone_types(args));
                assert(model(r) == model(*self));
                r
            },
            ResolvedType::Union(parts) => {
                let r = ResolvedType::Union(clone_types(parts));
                assert(model(r) == model(*self));
                r
            },
            ResolvedType::Function(params, ret) => {
                let r = ResolvedType::Function(clone_types(params), Box::new((**ret).clone()));
                assert(model(r) == model(*self));
                r
            },
            ResolvedType::TypeParam(id) => ResolvedType::TypeParam(*id),
            ResolvedType::Null => ResolvedType::Null,
        }
    }
}

impl PartialEq for ResolvedType {
    fn eq(&self, other: &Self) -> (r: bool)
        decreases self, 1nat,
    {
        let r = match (self, other) {
            (ResolvedType::Primitive(a), ResolvedType::Primitive(b)) => *a == *b,
            (ResolvedType::Struct(a, xs), ResolvedType::Struct(b, ys)) => a.0 == b.0 && types_eq(
                xs,
                ys,
            ),
            (ResolvedType::Interface(a, xs), ResolvedType::Interface(b, ys)) => a.0 == b.0
                && types_eq(xs, ys),
            (ResolvedType::Union(xs), ResolvedType::Union(ys)) => types_eq(xs, ys),
            (ResolvedType::Function(xs, x), ResolvedType::Function(ys, y)) => types_eq(xs, ys)
                && (**x).eq(&**y),
            (ResolvedType::TypeParam(a), ResolvedType::TypeParam(b)) => a.0 == b.0,
            (ResolvedType::Null, ResolvedType::Null) => true,
            _ => false,
        };
        proof {
            lemma_model_eq_shape(*self, *other);
        }
        r
    }
}

impl vstd::std_specs::cmp::PartialEqSpecImpl for ResolvedType {
    open spec fn obeys_eq_spec() -> bool {
        true
    }

    open spec fn eq_spec(&self, other: &Self) -> bool {
        self@ == other@
    }
}

/// The models of a sequence are the models of its elements, in order.
pub proof fn lemma_models(s: Seq<ResolvedType>)
    ensures
        models(s).len() == s.len(),
        forall|i: int| 0 <= i < s.len() ==> #[trigger] models(s)[i] == model(s[i]),
    decreases s.len(),
{
    if s.len() > 0 {
        lemma_models(s.drop_last());
    }
}

/// Two types have equal models iff they have the same shape and parts with
/// equal models.
proof fn lemma_model_eq_shape(a: ResolvedType, b: ResolvedType)
    ensures
        (model(a) == model(b)) == (match (a, b) {
            (ResolvedType::Primitive(x), ResolvedType::Primitive(y)) => x == y,
            (ResolvedType::Struct(x, xs), ResolvedType::Struct(y, ys)) => x.0 == y.0 && models(xs@)
                == models(ys@),
            (ResolvedType::Interface(x, xs), ResolvedType::Interface(y, ys)) => x.0 == y.0 && models(
                xs@,
            ) == models(ys@),
            (ResolvedType::Union(xs), ResolvedType::Union(ys)) => models(xs@) == models(ys@),
            (ResolvedType::Function(xs, x), ResolvedType::Function(ys, y)) => models(xs@) == models(
                ys@,
            ) && model(*x) == model(*y),
            (ResolvedType::TypeParam(x), ResolvedType::TypeParam(y)) => x.0 == y.0,
            (ResolvedType::Null, ResolvedType::Null) => true,
            _ => false,
        }),
{
    match (a, b) {
        (ResolvedType::Primitive(x), ResolvedType::Primitive(y)) => {
            assert((model(a) == model(b)) == (x == y));
        },
        _ => {},
    }
}

/// The whole program after validation. Ids are unique within each list;
/// structs and interfaces share the `TypeId` space.
#[derive(Debug)]
pub struct Hir {
    pub modules: Vec<HirModule>,
    pub structs: Vec<HirStruct>,
    pub interfaces: Vec<HirInterface>,
    pub functions: Vec<HirFunction>,
    pub type_params: Vec<TypeParamInfo>,
}

/// A function or method after validation.
#[derive(Debug)]
pub struct HirFunction {
    pub id: FnId,
    pub module: ModuleId,
    pub name: String,
    /// The struct or interface that owns a method; `None` for a free function.
    pub owner: Option<TypeId>,
    pub has_self: bool,
    pub type_params: Vec<TypeParamId>,
    pub params: Vec<HirParam>,
    pub return_type: ResolvedType,
    /// `None` for an abstract interface method.
    pub body: Option<HirBlock>,
}

#[derive(Debug)]
pub struct HirBlock {
    pub statements: Vec<HirStatement>,
    /// The value of the block, if its last expression gives one.
    pub returns: Option<TypedExpr>,
}

#[derive(Debug)]
pub enum HirStatement {
    /// A variable with its type, inferred or written.
    VarDecl(String, ResolvedType, Option<TypedExpr>),
    Return(Option<TypedExpr>),
    Expr(TypedExpr),
    While(TypedExpr, HirBlock),
    For(String, TypedExpr, HirBlock),
    Break,
    Continue,
}

#[derive(Debug)]
pub struct TypedExpr {
    pub kind: ExprKind,
    pub ty: ResolvedType,
}

#[derive(Debug)]
pub enum ExprKind {
    Literal(HirLiteral),
    Variable(String),
    If(Box<TypedExpr>, Box<HirBlock>, Option<Box<HirBlock>>),
    /// Callee, type arguments, arguments.
    Call(Box<TypedExpr>, Vec<ResolvedType>, Vec<TypedExpr>),
    LiteralMap(Vec<(TypedExpr, TypedExpr)>),
    LiteralList(Vec<TypedExpr>),
    StructInit(TypeId, Vec<ResolvedType>, Vec<(String, TypedExpr)>),
    As(Box<TypedExpr>, ResolvedType),
    Is(Box<TypedExpr>, ResolvedType),
    Member(Box<TypedExpr>, String),
    BinaryOp(Box<TypedExpr>, BinaryOperator, Box<TypedExpr>),
    UnaryOp(UnaryOperator, Box<TypedExpr>),
    FunctionLiteral(Vec<TypeParamId>, Vec<HirParam>, Vec<HirCapture>, Box<HirBlock>),
    Block(Box<HirBlock>),
}

/// A literal after validation.
#[derive(Debug, Clone, PartialEq)]
pub enum HirLiteral {
    Int(i64),
    /// A floating-point literal, by the bits of its IEEE 754 double (as
    /// `f64::to_bits` gives them).
    Float(u64),
    String(String),
    Char(char),
    Bool(bool),
    Null,
}

/// Struct with all extend methods merged in.
#[derive(Debug)]
pub struct HirStruct {
    pub id: TypeId,
    pub module: ModuleId,
    pub name: String,
    /// `extern struct`: value-typed, C-ABI-compatible, no GC header.
    pub is_extern: bool,
    pub type_params: Vec<TypeParamId>,
    pub fields: Vec<HirField>,
    /// Methods declared inline on the struct.
    pub methods: Vec<FnId>,
    /// Methods contributed by extend blocks, with the extend's target
    /// type-argument list.
    pub specialised_methods: Vec<(Vec<ResolvedType>, FnId)>,
    /// Implemented interfaces with their type arguments.
    pub implements: Vec<(TypeId, Vec<ResolvedType>)>,
}

#[derive(Debug)]
pub struct HirInterface {
    pub id: TypeId,
    pub module: ModuleId,
    pub name: String,
    pub type_params: Vec<TypeParamId>,
    pub fields: Vec<HirField>,
    /// Abstract and default methods.
    pub methods: Vec<FnId>,
    /// Parent interfaces with their type arguments.
    pub extends: Vec<(TypeId, Vec<ResolvedType>)>,
}

#[derive(Debug)]
pub struct HirField {
    pub name: String,
    pub ty: ResolvedType,
    pub is_pointer: bool,
}

#[derive(Debug)]
pub struct HirParam {
    pub name: String,
    pub ty: ResolvedType,
    pub is_pointer: bool,
}

#[derive(Debug)]
pub struct HirCapture {
    pub name: String,
    pub ty: ResolvedType,
}

#[derive(Debug, Clone, Copy, PartialEq, Eq, Structural)]
pub enum BinaryOperator {
    Add,
    Sub,
    Mul,
    Div,
    Mod,
    And,
    Or,
    Eq,
    Neq,
    Lt,
    Le,
    Gt,
    Ge,
}

#[derive(Debug, Clone, Copy, PartialEq, Eq, Structural)]
pub enum UnaryOperator {
    Neg,
    Not,
}

} // verus!
