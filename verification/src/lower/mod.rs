pub mod builder;
pub mod casts;
pub mod closures;
pub mod control;
pub mod for_loops;
pub mod functions;
pub mod layout;
pub mod loops;
pub mod mangling;
pub mod mono;
pub mod subst;

use vstd::prelude::*;

use crate::hir::{BinaryOperator, HirLiteral, PrimitiveType, ResolvedType, TypeModel, UnaryOperator};
use crate::hir::{FnId, TypeId};
use crate::mir::{AssignValue, BinOp, Layout, LocalId, MirConst, MirField, MirFnId, MirLocal, MirType, MirTypeId, Operand, Stmt, UnOp, UnionVariant};
use crate::lower::builder::{lookup_scopes, FnBuilder};
use crate::lower::subst::{all_bound, subst_model, Subst};

verus! {

/// A unit of monomorphization work.
#[derive(Debug, Clone)]
pub enum MonoTask {
    /// Lower a function body for a given list of concrete type arguments.
    Function { fn_id: FnId, type_args: Vec<ResolvedType>, mir_id: MirFnId },
    /// Build the vtable of a (struct instance, interface instance) pair,
    /// both already monomorphized.
    VTable {
        struct_mir: MirTypeId,
        interface_mir: MirTypeId,
        struct_hir: TypeId,
        struct_args: Vec<ResolvedType>,
        iface_hir: TypeId,
        iface_args: Vec<ResolvedType>,
    },
}

/// Pointer and managed-reference size on the target (64-bit).
pub fn pointer_size() -> (r: u32)
    ensures
        r == 8,
{
    8
}

/// Storage size of a primitive, in bytes.
pub open spec fn spec_prim_size(p: PrimitiveType) -> u32 {
    match p {
        PrimitiveType::Int8 | PrimitiveType::Uint8 | PrimitiveType::Bool => 1,
        PrimitiveType::Int16 | PrimitiveType::Uint16 => 2,
        PrimitiveType::Int32 | PrimitiveType::Uint32 | PrimitiveType::Float32 | PrimitiveType::Char => 4,
        PrimitiveType::Int64 | PrimitiveType::Uint64 | PrimitiveType::Float64 => 8,
        PrimitiveType::String => 8,
    }
}

/// Alignment of a MIR type: primitives align to their size, every
/// reference-shaped value (and a union handle) to a pointer.
pub open spec fn spec_align_of(t: MirType) -> u32 {
    match t {
        MirType::Primitive(p) => spec_prim_size(p),
        _ => 8,
    }
}

pub fn prim_size(p: &PrimitiveType) -> (r: u32)
    ensures
        r == spec_prim_size(*p),
{
    match p {
        PrimitiveType::Int8 | PrimitiveType::Uint8 | PrimitiveType::Bool => 1,
        PrimitiveType::Int16 | PrimitiveType::Uint16 => 2,
        PrimitiveType::Int32 | PrimitiveType::Uint32 | PrimitiveType::Float32 | PrimitiveType::Char => 4,
        PrimitiveType::Int64 | PrimitiveType::Uint64 | PrimitiveType::Float64 => 8,
        PrimitiveType::String => pointer_size(),
    }
}

/// Alignment of a MIR type.
pub fn align_of(t: &MirType) -> (r: u32)
    ensures
        r == spec_align_of(*t),
        1 <= r <= 8,
{
    match t {
        MirType::Primitive(p) => prim_size(p),
        MirType::ManagedRef(_) | MirType::Pointer(_) | MirType::FnPtr(_, _) | MirType::Closure(_)
        | MirType::NullableRef(_) => pointer_size(),
        MirType::Union(_) => pointer_size(),
    }
}

/// Storage size of a MIR type: word-sized handles for references, unions
/// and pointers, the primitive's size otherwise; the same as its alignment.
pub fn size_of(t: &MirType) -> (r: u32)
    ensures
        r == spec_align_of(*t),
{
    align_of(t)
}

/// `off` rounded up to a multiple of `align` (unchanged when `align` is 0).
pub open spec fn spec_align_up(off: int, align: int) -> int {
    if align == 0 {
        off
    } else {
        ((off + align - 1) / align) * align
    }
}

/// Rounds `off` up to the next multiple of `align`.
pub fn align_up(off: u32, align: u32) -> (r: u32)
    requires
        align == 0 || off + align - 1 <= u32::MAX,
    ensures
        r == spec_align_up(off as int, align as int),
{
    if align == 0 {
        off
    } else {
        let x = off + (align - 1);
        proof {
            vstd::arithmetic::div_mod::lemma_fundamental_div_mod(x as int, align as int);
            vstd::arithmetic::mul::lemma_mul_is_commutative(x as int / align as int, align as int);
        }
        x / align * align
    }
}

/// Size so far and largest alignment so far (at least 1) after laying out
/// the first `n` fields with the given (size, align) each, each field at
/// the next offset that suits its alignment.
pub open spec fn fields_upto(sa: Seq<(u32, u32)>, n: nat) -> (int, int)
    decreases n,
{
    if n == 0 || n > sa.len() {
        (0, 1)
    } else {
        let (size, align) = fields_upto(sa, (n - 1) as nat);
        let (fs, fa) = sa[n - 1];
        (spec_align_up(size, fa as int) + fs, if fa > align {
            fa as int
        } else {
            align
        })
    }
}

/// Laying out the first `n` fields stays within `u32`.
pub open spec fn fields_fit(sa: Seq<(u32, u32)>, n: nat) -> bool
    decreases n,
{
    if n == 0 || n > sa.len() {
        true
    } else {
        let (size, align) = fields_upto(sa, (n - 1) as nat);
        let (fs, fa) = sa[n - 1];
        &&& fields_fit(sa, (n - 1) as nat)
        &&& size + fa - 1 <= u32::MAX
        &&& spec_align_up(size, fa as int) + fs <= u32::MAX
    }
}

/// (size, align) of each field, by `size_of` and `align_of`.
pub open spec fn field_sizes(fields: Seq<MirField>) -> Seq<(u32, u32)> {
    Seq::new(fields.len(), |i: int| (spec_align_of(fields[i].ty), spec_align_of(fields[i].ty)))
}

/// The layout of a struct with the given fields: the C rule, without
/// reordering; the size is rounded up to the largest alignment.
pub open spec fn spec_compute_layout(fields: Seq<MirField>) -> Layout {
    let (size, align) = fields_upto(field_sizes(fields), fields.len());
    Layout { size: spec_align_up(size, align) as u32, align: align as u32 }
}

pub(crate) proof fn lemma_fields_fit_prefix(sa: Seq<(u32, u32)>, n: nat, m: nat)
    requires
        fields_fit(sa, n),
        m <= n <= sa.len(),
    ensures
        fields_fit(sa, m),
    decreases n - m,
{
    if m < n {
        lemma_fields_fit_prefix(sa, (n - 1) as nat, m);
    }
}

proof fn lemma_fields_align(sa: Seq<(u32, u32)>, n: nat)
    requires
        n <= sa.len(),
        forall|i: int| 0 <= i < sa.len() ==> 1 <= #[trigger] sa[i].1 <= 8,
    ensures
        1 <= fields_upto(sa, n).1 <= 8,
        fields_upto(sa, n).0 >= 0,
    decreases n,
{
    if n > 0 {
        lemma_fields_align(sa, (n - 1) as nat);
        let (size, _) = fields_upto(sa, (n - 1) as nat);
        let fa = sa[n - 1].1 as int;
        assert(spec_align_up(size, fa) >= 0) by (nonlinear_arith)
            requires
                size >= 0,
                fa >= 1,
        ;
    }
}

/// Lays out a struct's fields: each aligned, summed, and the total aligned.
pub fn compute_layout(fields: &[MirField]) -> (r: Layout)
    requires
        fields_fit(field_sizes(fields@), fields@.len()),
        ({
            let (size, align) = fields_upto(field_sizes(fields@), fields@.len());
            size + align - 1 <= u32::MAX
        }),
    ensures
        r == spec_compute_layout(fields@),
{
    let ghost sa = field_sizes(fields@);
    let mut align: u32 = 1;
    let mut size: u32 = 0;
    let mut i: usize = 0;
    proof {
        lemma_fields_align(sa, fields@.len());
    }
    while i < fields.len()
        invariant
            i <= fields@.len(),
            sa == field_sizes(fields@),
            fields_fit(sa, fields@.len()),
            size == fields_upto(sa, i as nat).0,
            align == fields_upto(sa, i as nat).1,
        decreases fields@.len() - i,
    {
        proof {
            lemma_fields_fit_prefix(sa, fields@.len(), (i + 1) as nat);
        }
        let fa = align_of(&fields[i].ty);
        let fs = size_of(&fields[i].ty);
        if fa > align {
            align = fa;
        }
        size = align_up(size, fa);
        size = size + fs;
        i = i + 1;
    }
    proof {
        lemma_fields_align(sa, fields@.len());
    }
    let size = align_up(size, align);
    Layout { size, align }
}

/// Largest alignment (at least a pointer's) and largest size among the
/// first `n` variants.
pub open spec fn variants_upto(vs: Seq<UnionVariant>, n: nat) -> (int, int)
    decreases n,
{
    if n == 0 || n > vs.len() {
        (8, 0)
    } else {
        let (align, payload) = variants_upto(vs, (n - 1) as nat);
        let a = spec_align_of(vs[n - 1].ty) as int;
        (if a > align {
            a
        } else {
            align
        }, if a > payload {
            a
        } else {
            payload
        })
    }
}

/// Union layout: a two-byte tag, the payload at the next aligned offset,
/// the whole rounded up to the alignment.
pub open spec fn spec_compute_union_layout(vs: Seq<UnionVariant>) -> Layout {
    let (align, payload) = variants_upto(vs, vs.len());
    let payload_off = spec_align_up(2, align);
    Layout { size: spec_align_up(payload_off + payload, align) as u32, align: align as u32 }
}

proof fn lemma_variants_bounds(vs: Seq<UnionVariant>, n: nat)
    requires
        n <= vs.len(),
    ensures
        variants_upto(vs, n).0 == 8,
        0 <= variants_upto(vs, n).1 <= 8,
    decreases n,
{
    if n > 0 {
        lemma_variants_bounds(vs, (n - 1) as nat);
    }
}

/// Lays out a union of the given variants.
pub fn compute_union_layout(variants: &[UnionVariant]) -> (r: Layout)
    ensures
        r == spec_compute_union_layout(variants@),
{
    let mut align: u32 = pointer_size();
    let mut payload_max: u32 = 0;
    let mut i: usize = 0;
    while i < variants.len()
        invariant
            i <= variants@.len(),
            align == variants_upto(variants@, i as nat).0,
            payload_max == variants_upto(variants@, i as nat).1,
        decreases variants@.len() - i,
    {
        proof {
            lemma_variants_bounds(variants@, i as nat);
        }
        let a = align_of(&variants[i].ty);
        let s = size_of(&variants[i].ty);
        if a > align {
            align = a;
        }
        if s > payload_max {
            payload_max = s;
        }
        i = i + 1;
    }
    proof {
        lemma_variants_bounds(variants@, variants@.len());
        assert(spec_align_up(2, 8) == 8);
    }
    let tag = 2u32;
    let payload_off = align_up(tag, align);
    let size = align_up(payload_off + payload_max, align);
    Layout { size, align }
}

/// The primitive that a type is, if it is one.
pub fn primitive_of(ty: &ResolvedType) -> (r: Option<PrimitiveType>)
    ensures
        r == (match *ty {
            ResolvedType::Primitive(p) => Some(p),
            _ => None::<PrimitiveType>,
        }),
{
    match ty {
        ResolvedType::Primitive(p) => Some(*p),
        _ => None,
    }
}

/// The primitive of a type, or `default` when it is not a primitive.
pub open spec fn primitive_or(ty: ResolvedType, default: PrimitiveType) -> PrimitiveType {
    match ty {
        ResolvedType::Primitive(p) => p,
        _ => default,
    }
}

/// The constant that a literal of type `ty` lowers to. Numbers are tagged
/// with the primitive of their type; when the type is not a primitive, an
/// integer is taken as 32-bit and a float as 64-bit.
pub fn lower_literal(lit: &HirLiteral, ty: &ResolvedType) -> (r: MirConst)
    ensures
        match *lit {
            HirLiteral::Int(v) => r == MirConst::Int(v, primitive_or(*ty, PrimitiveType::Int32)),
            HirLiteral::Float(bits) => r == MirConst::Float(bits, primitive_or(*ty, PrimitiveType::Float64)),
            HirLiteral::String(s) => r matches MirConst::String(t) && t@ == s@,
            HirLiteral::Char(c) => r == MirConst::Char(c),
            HirLiteral::Bool(b) => r == MirConst::Bool(b),
            HirLiteral::Null => r == MirConst::Null,
        },
{
    match lit {
        HirLiteral::Int(v) => {
            let p = match primitive_of(ty) {
                Some(p) => p,
                None => PrimitiveType::Int32,
            };
            MirConst::Int(*v, p)
        },
        HirLiteral::Float(v) => {
            let p = match primitive_of(ty) {
                Some(p) => p,
                None => PrimitiveType::Float64,
            };
            MirConst::Float(*v, p)
        },
        HirLiteral::String(s) => MirConst::String(s.clone()),
        HirLiteral::Char(c) => MirConst::Char(*c),
        HirLiteral::Bool(b) => MirConst::Bool(*b),
        HirLiteral::Null => MirConst::Null,
    }
}

/// The MIR operator for a HIR binary operator (one to one).
pub open spec fn spec_map_binop(op: BinaryOperator) -> BinOp {
    match op {
        BinaryOperator::Add => BinOp::Add,
        BinaryOperator::Sub => BinOp::Sub,
        BinaryOperator::Mul => BinOp::Mul,
        BinaryOperator::Div => BinOp::Div,
        BinaryOperator::Mod => BinOp::Mod,
        BinaryOperator::And => BinOp::And,
        BinaryOperator::Or => BinOp::Or,
        BinaryOperator::Eq => BinOp::Eq,
        BinaryOperator::Neq => BinOp::Neq,
        BinaryOperator::Lt => BinOp::Lt,
        BinaryOperator::Le => BinOp::Le,
        BinaryOperator::Gt => BinOp::Gt,
        BinaryOperator::Ge => BinOp::Ge,
    }
}

pub fn map_binop(op: &BinaryOperator) -> (r: BinOp)
    ensures
        r == spec_map_binop(*op),
{
    match op {
        BinaryOperator::Add => BinOp::Add,
        BinaryOperator::Sub => BinOp::Sub,
        BinaryOperator::Mul => BinOp::Mul,
        BinaryOperator::Div => BinOp::Div,
        BinaryOperator::Mod => BinOp::Mod,
        BinaryOperator::And => BinOp::And,
        BinaryOperator::Or => BinOp::Or,
        BinaryOperator::Eq => BinOp::Eq,
        BinaryOperator::Neq => BinOp::Neq,
        BinaryOperator::Lt => BinOp::Lt,
        BinaryOperator::Le => BinOp::Le,
        BinaryOperator::Gt => BinOp::Gt,
        BinaryOperator::Ge => BinOp::Ge,
    }
}

pub fn map_unop(op: &UnaryOperator) -> (r: UnOp)
    ensures
        r == (match *op {
            UnaryOperator::Neg => UnOp::Neg,
            UnaryOperator::Not => UnOp::Not,
        }),
{
    match op {
        UnaryOperator::Neg => UnOp::Neg,
        UnaryOperator::Not => UnOp::Not,
    }
}

/// The primitive of a numeric literal's type.
pub fn prim_of(ty: &ResolvedType) -> (r: PrimitiveType)
    requires
        ty@ is Primitive,
    ensures
        ty@ == TypeModel::Primitive(r),
{
    match ty {
        ResolvedType::Primitive(p) => *p,
        _ => {
            proof {
                assert(false);
            }
            PrimitiveType::Int64
        },
    }
}

/// `ty` with every type parameter replaced by its binding in `table`;
/// every parameter in `ty` must be bound.
pub fn subst_with(ty: &ResolvedType, table: &Subst) -> (r: ResolvedType)
    requires
        all_bound(table.lookup(), ty@),
    ensures
        r@ == subst_model(table.lookup(), ty@),
{
    table.apply(ty)
}

/// `ty` with the type parameters that `subst` binds replaced; the others
/// stay.
pub fn substitute_simple(ty: &ResolvedType, subst: &Subst) -> (r: ResolvedType)
    ensures
        r@ == subst_model(subst.lookup(), ty@),
{
    subst.apply(ty)
}

/// Rounding up to a positive multiple of `a` gives a multiple of `a`, at or
/// above the value and less than `a` past it.
proof fn lemma_align_up_props(x: int, a: int)
    requires
        x >= 0,
        a > 0,
    ensures
        x <= spec_align_up(x, a) < x + a,
        spec_align_up(x, a) % a == 0,
{
    let y = x + a - 1;
    vstd::arithmetic::div_mod::lemma_fundamental_div_mod(y, a);
    vstd::arithmetic::mul::lemma_mul_is_commutative(y / a, a);
    vstd::arithmetic::div_mod::lemma_mod_multiples_basic(y / a, a);
    vstd::arithmetic::div_mod::lemma_mod_bound(y, a);
}

/// The sum of the sizes of the first `n` fields.
pub open spec fn sizes_sum(sa: Seq<(u32, u32)>, n: nat) -> int
    decreases n,
{
    if n == 0 || n > sa.len() {
        0
    } else {
        sizes_sum(sa, (n - 1) as nat) + sa[n - 1].0
    }
}

proof fn lemma_fields_cover(sa: Seq<(u32, u32)>, n: nat)
    requires
        n <= sa.len(),
        forall|i: int| 0 <= i < sa.len() ==> 1 <= #[trigger] sa[i].1 <= 8,
    ensures
        fields_upto(sa, n).0 >= sizes_sum(sa, n),
        forall|i: int| 0 <= i < n ==> #[trigger] sa[i].1 <= fields_upto(sa, n).1,
    decreases n,
{
    if n > 0 {
        lemma_fields_cover(sa, (n - 1) as nat);
        lemma_fields_align(sa, (n - 1) as nat);
        let (size, _) = fields_upto(sa, (n - 1) as nat);
        lemma_align_up_props(size, sa[n - 1].1 as int);
    }
}

/// The layout law of `compute_layout`: the alignment is the largest field
/// alignment (at least 1), the size is a multiple of it, and the size
/// covers the sizes of all fields together.
pub proof fn law_field_layout(fields: Seq<MirField>)
    requires
        ({
            let (size, align) = fields_upto(field_sizes(fields), fields.len());
            size + align - 1 <= u32::MAX
        }),
    ensures
        ({
            let l = spec_compute_layout(fields);
            let sa = field_sizes(fields);
            &&& 1 <= l.align <= 8
            &&& l.size % l.align == 0
            &&& l.size >= sizes_sum(sa, fields.len())
            &&& forall|i: int| 0 <= i < fields.len() ==> spec_align_of(#[trigger] fields[i].ty) <= l.align
        }),
{
    let sa = field_sizes(fields);
    assert forall|i: int| 0 <= i < sa.len() implies 1 <= #[trigger] sa[i].1 <= 8 by {
        assert(sa[i].1 == spec_align_of(fields[i].ty));
    }
    lemma_fields_align(sa, fields.len());
    lemma_fields_cover(sa, fields.len());
    let (size, align) = fields_upto(sa, fields.len());
    lemma_align_up_props(size, align);
    assert forall|i: int| 0 <= i < fields.len() implies spec_align_of(#[trigger] fields[i].ty)
        <= spec_compute_layout(fields).align by {
        assert(sa[i].1 == spec_align_of(fields[i].ty));
    }
}

/// The layout law of unions: pointer alignment, a size that is a multiple
/// of it, and room for the two-byte tag, padded to the alignment, followed
/// by the largest variant.
pub proof fn law_union_layout(vs: Seq<UnionVariant>)
    ensures
        spec_compute_union_layout(vs).align == 8,
        spec_compute_union_layout(vs).size % 8 == 0,
        forall|i: int|
            0 <= i < vs.len() ==> 8 + spec_align_of(#[trigger] vs[i].ty) <= spec_compute_union_layout(vs).size,
{
    lemma_variants_bounds(vs, vs.len());
    lemma_variants_max(vs, vs.len());
    let (align, payload) = variants_upto(vs, vs.len());
    assert(spec_align_up(2, 8) == 8);
    lemma_align_up_props(8 + payload, 8);
}

proof fn lemma_variants_max(vs: Seq<UnionVariant>, n: nat)
    requires
        n <= vs.len(),
    ensures
        forall|i: int| 0 <= i < n ==> spec_align_of(#[trigger] vs[i].ty) <= variants_upto(vs, n).1,
    decreases n,
{
    if n > 0 {
        lemma_variants_max(vs, (n - 1) as nat);
    }
}


/// Lowers `e as target` where `op` is the lowered value of `e`, of type
/// `src`: after `subst` both types are primitive, and the value is cast to
/// the target primitive in a fresh temporary, whose copy is the result.
pub fn lower_as(op: Operand, src: &ResolvedType, target: &ResolvedType, subst: &Subst, b: &mut FnBuilder) -> (r: Operand)
    requires
        old(b).wf(),
        old(b).has_block(old(b).current_block),
        old(b).locals@.len() < u32::MAX,
        subst_model(subst.lookup(), src@) is Primitive,
        subst_model(subst.lookup(), target@) is Primitive,
    ensures
        ({
            let p = subst_model(subst.lookup(), target@)->Primitive_0;
            let tmp = LocalId(old(b).locals@.len() as u32);
            &&& final(b).wf()
            &&& r == Operand::Copy(tmp)
            &&& final(b).locals@ == old(b).locals@.push(MirLocal { id: tmp, name: None, ty: MirType::Primitive(p) })
            &&& final(b).blocks@.len() == old(b).blocks@.len()
            &&& final(b).current().stmts@ == old(b).current().stmts@.push(
                Stmt::Assign(tmp, AssignValue::Cast(op, MirType::Primitive(p))),
            )
            &&& final(b).current().terminator == old(b).current().terminator
            &&& forall|i: int|
                0 <= i < old(b).blocks@.len() && i != old(b).current_block.0 ==> #[trigger] final(b).blocks@[i]
                    == old(b).blocks@[i]
            &&& final(b).same_frame(old(b))
        }),
{
    let target_ty = subst.apply(target);
    let p = match target_ty {
        ResolvedType::Primitive(p) => p,
        _ => {
            assert(false);
            PrimitiveType::Int64
        },
    };
    b.emit(AssignValue::Cast(op, MirType::Primitive(p)), MirType::Primitive(p))
}


/// Lowers a use of the variable `name`: a copy of the local that `name` is
/// bound to, innermost scope first. The name must be bound.
pub fn lower_variable(name: &str, b: &FnBuilder) -> (r: Operand)
    requires
        lookup_scopes(b.scope@, name@) is Some,
    ensures
        r == Operand::Copy(lookup_scopes(b.scope@, name@).unwrap()),
{
    match b.lookup(name) {
        Some(local) => Operand::Copy(local),
        None => Operand::Copy(LocalId(0)),
    }
}

} // verus!
