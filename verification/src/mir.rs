use vstd::prelude::*;

use crate::hir::PrimitiveType;

verus! {

#[derive(Debug, Clone, Copy, PartialEq, Eq, Hash, Structural)]
pub struct MirTypeId(pub u32);

#[derive(Debug, Clone, Copy, PartialEq, Eq, Hash, Structural)]
pub struct MirFnId(pub u32);

#[derive(Debug, Clone, Copy, PartialEq, Eq, Hash, Structural)]
pub struct LocalId(pub u32);

#[derive(Debug, Clone, Copy, PartialEq, Eq, Hash, Structural)]
pub struct BlockId(pub u32);

/// Type definitions that other parts of a MIR program refer to by id.
#[derive(Debug, PartialEq)]
pub enum MirTypeDef {
    /// A struct on the GC heap: `[gc header | type id | field 1 | ...]`,
    /// referenced by a pointer to its first field. Extern structs follow
    /// the C layout.
    Struct { name: String, fields: Vec<MirField>, layout: Layout, kind: StructKind },
    /// A tagged union: a two-byte tag, then the payload.
    Union { variants: Vec<UnionVariant>, layout: Layout },
    /// A closure's environment: like a struct, with the captured variables.
    Closure { env_fields: Vec<MirField>, function: MirFnId, layout: Layout },
}

/// Struct field.
#[derive(Debug, PartialEq)]
pub struct MirField {
    pub name: String,
    pub ty: MirType,
}

/// Union variant.
#[derive(Debug, PartialEq)]
pub struct UnionVariant {
    pub tag: u16,
    pub ty: MirType,
}

#[derive(Debug, Clone, Copy, PartialEq, Eq, Structural)]
pub enum StructKind {
    /// Allocated on the GC heap.
    Managed,
    /// C-ABI layout, FFI-safe fields.
    Extern,
}

/// Total size, and the alignment that every element keeps.
#[derive(Debug, Clone, Copy, PartialEq, Eq, Structural)]
pub struct Layout {
    pub size: u32,
    pub align: u32,
}

#[derive(Debug, PartialEq)]
pub enum MirType {
    /// Numbers, chars, bools.
    Primitive(PrimitiveType),
    /// GC-managed reference: structs, lists, maps, strings, closures.
    ManagedRef(MirTypeId),
    /// Raw pointer, at the extern boundary only.
    Pointer(Box<MirType>),
    /// A union of types.
    Union(MirTypeId),
    /// Bare extern function pointer.
    FnPtr(Vec<MirType>, Box<MirType>),
    /// Managed closure with environment.
    Closure(MirTypeId),
    /// Nullable managed reference: `T | null` as a possibly null pointer.
    NullableRef(MirTypeId),
}

/// Dispatch table of one struct for one interface.
#[derive(Debug, Clone)]
pub struct VTable {
    pub struct_ty: MirTypeId,
    pub interface_ty: MirTypeId,
    /// Interface slot index to concrete monomorphized function.
    pub slots: Vec<MirFnId>,
}

#[derive(Debug, Clone, Copy, PartialEq, Eq, Structural)]
pub enum Abi {
    /// The language's own calling convention.
    Otter,
    /// C-compatible, for FFI functions.
    Extern,
}

/// Local variable or function parameter.
#[derive(Debug, PartialEq)]
pub struct MirLocal {
    pub id: LocalId,
    /// User-visible name, if any.
    pub name: Option<String>,
    pub ty: MirType,
}

#[derive(Debug, Clone, Copy, PartialEq, Eq, Structural)]
pub enum TrapReason {
    /// `as T` did not match.
    AsMismatch,
    /// Null pointer received over FFI.
    NullDeref,
}

#[derive(Debug, Clone, Copy, PartialEq, Eq, Structural)]
pub enum BinOp {
    Add,
    Sub,
    Mul,
    Div,
    Mod,
    And,
    Or,
    Eq,
    Neq,
    Lt,
    Le,
    Gt,
    Ge,
}

#[derive(Debug, Clone, Copy, PartialEq, Eq, Structural)]
pub enum UnOp {
    Neg,
    Not,
}

/// A whole MIR program. Type and function ids index `types` and
/// `functions`: the definition of `MirTypeId(i)` is `types[i]`.
#[derive(Debug)]
pub struct MirProgram {
    /// Types used in parameters, variables, and so on.
    pub types: Vec<MirTypeDef>,
    /// Functions, with every generic resolved.
    pub functions: Vec<MirFunction>,
    /// Dispatch tables, at most one per (struct, interface) pair.
    pub vtables: Vec<VTable>,
    /// The program's `main`.
    pub entry: MirFnId,
}

/// A function after lowering. Local and block ids index `locals` and
/// `blocks`.
#[derive(Debug)]
pub struct MirFunction {
    pub id: MirFnId,
    pub name: String,
    pub abi: Abi,
    /// The locals that are parameters, in order.
    pub params: Vec<LocalId>,
    pub locals: Vec<MirLocal>,
    pub blocks: Vec<MirBlock>,
    /// The block where execution starts.
    pub entry: BlockId,
    pub return_type: MirType,
}

/// A basic block: straight-line statements and one terminator.
#[derive(Debug)]
pub struct MirBlock {
    pub id: BlockId,
    pub stmts: Vec<Stmt>,
    pub terminator: Terminator,
}

#[derive(Debug)]
pub enum Stmt {
    Assign(LocalId, AssignValue),
}

/// The right-hand side of an assignment.
#[derive(Debug)]
pub enum AssignValue {
    /// Copy or move a local, or a constant.
    Use(Operand),
    /// Binary operation (+ - * / % && || == != < <= > >=).
    Bin(BinOp, Operand, Operand),
    /// Unary operation (-, !).
    Un(UnOp, Operand),
    /// Function call.
    Call(Callee, Vec<Operand>),
    AllocStruct(MirTypeId, Vec<Operand>),
    AllocList(MirType, Vec<Operand>),
    AllocMap(MirType, MirType, Vec<(Operand, Operand)>),
    AllocClosure(MirFnId, Vec<Operand>),
    /// Field of a struct, or of anything else with a layout.
    Field(Operand, u32),
    /// A union value: union type, tag, payload.
    UnionConstruct(MirTypeId, u32, Operand),
    /// The tag of a union value.
    UnionTag(Operand),
    /// The payload of a union value, unchecked: guard it by a tag test.
    UnionPayload(Operand, MirTypeId),
    /// A value converted to another primitive type.
    Cast(Operand, MirType),
}

#[derive(Debug, Clone)]
pub enum Operand {
    /// Copy the value (a primitive or a pointer).
    Copy(LocalId),
    /// As `Copy`, and the local is not needed afterwards.
    Move(LocalId),
    Const(MirConst),
}

#[derive(Debug, Clone)]
pub enum MirConst {
    Int(i64, PrimitiveType),
    /// A floating-point constant, by the bits of its IEEE 754 double
    /// (as `f64::to_bits` gives them).
    Float(u64, PrimitiveType),
    Bool(bool),
    Char(char),
    String(String),
    Null,
    /// Address of a function used as a value.
    Fn(MirFnId),
}

#[derive(Debug, Clone)]
pub enum Callee {
    /// Direct call of a monomorphized function.
    Static(MirFnId),
    /// Call through a closure or a function pointer.
    Indirect(Operand),
    /// Interface dispatch: receiver, interface type, slot index.
    Virtual(Operand, MirTypeId, u32),
}

#[derive(Debug, Clone)]
pub enum Terminator {
    Goto(BlockId),
    CondBr(Operand, BlockId, BlockId),
    /// Switch on an integer (union tags and `is` chains).
    Switch { scrutinee: Operand, arms: Vec<(u64, BlockId)>, default: BlockId },
    Return(Option<Operand>),
    Trap(TrapReason),
    Unreachable,
}

/// Size of a pointer or managed reference on the target.
pub const POINTER_SIZE: u32 = 8;

/// Alignment of a pointer or managed reference on the target.
pub const POINTER_ALIGN: u32 = 8;

} // verus!
