use vstd::prelude::*;

use crate::hir::PrimitiveType;
use crate::codegen::select::spec_prim_type;
use crate::lower::spec_prim_size;
use crate::mir::{Layout, MirType, MirTypeDef, POINTER_ALIGN, POINTER_SIZE};

verus! {

/// Size and alignment of a primitive, in bytes. A string is a managed
/// reference, so it takes a pointer.
pub open spec fn spec_primitive_size_align(p: PrimitiveType) -> (u32, u32) {
    match p {
        PrimitiveType::Bool | PrimitiveType::Int8 | PrimitiveType::Uint8 => (1, 1),
        PrimitiveType::Int16 | PrimitiveType::Uint16 => (2, 2),
        PrimitiveType::Int32 | PrimitiveType::Uint32 | PrimitiveType::Float32 | PrimitiveType::Char => (
            4,
            4,
        ),
        PrimitiveType::Int64 | PrimitiveType::Uint64 | PrimitiveType::Float64 => (8, 8),
        PrimitiveType::String => (8, 8),
    }
}

/// Size and alignment of a value of type `ty` stored inline in a struct:
/// references of every kind take a pointer; a union takes the layout that
/// its definition records. `types[i]` is the definition of type id `i`.
pub open spec fn spec_type_size_align(types: Seq<MirTypeDef>, ty: MirType) -> (u32, u32) {
    match ty {
        MirType::Primitive(p) => spec_primitive_size_align(p),
        MirType::Union(uid) => match types[uid.0 as int] {
            MirTypeDef::Union { layout, .. } => (layout.size, layout.align),
            _ => (0, 0),
        },
        _ => (8, 8),
    }
}

/// A type whose union definition, if any, is present in `types`.
pub open spec fn type_known(types: Seq<MirTypeDef>, ty: MirType) -> bool {
    ty matches MirType::Union(uid) ==> (uid.0 < types.len() && types[uid.0 as int] is Union)
}

/// A power of two.
pub open spec fn is_pow2(a: u32) -> bool {
    a > 0 && a & ((a - 1) as u32) == 0
}

/// `x` rounded up to a multiple of the power of two `a`: add `a - 1`,
/// then clear the bits below `a` (see `lemma_align_to` for what this gives).
pub open spec fn align_to(x: int, a: int) -> int {
    (((x + a - 1) as u32) & !((a - 1) as u32)) as int
}

/// Layout of the first `n` fields, given (size, align) of each field: the
/// field offsets, the end of the last field, and the largest alignment
/// (at least 1). Each field starts at the first offset after the previous
/// field that is a multiple of its alignment.
pub open spec fn layout_upto(sa: Seq<(u32, u32)>, n: nat) -> (Seq<u32>, int, int)
    decreases n,
{
    if n == 0 || n > sa.len() {
        (Seq::empty(), 0, 1)
    } else {
        let (offs, end, al) = layout_upto(sa, (n - 1) as nat);
        let (sz, a) = sa[n - 1];
        let off = align_to(end, a as int);
        (offs.push(off as u32), off + sz, if a > al {
            a as int
        } else {
            al
        })
    }
}

/// Laying out the first `n` fields stays within `u32` at every step.
pub open spec fn layout_fits(sa: Seq<(u32, u32)>, n: nat) -> bool
    decreases n,
{
    if n == 0 || n > sa.len() {
        true
    } else {
        let (offs, end, al) = layout_upto(sa, (n - 1) as nat);
        let (sz, a) = sa[n - 1];
        &&& layout_fits(sa, (n - 1) as nat)
        &&& end + a - 1 <= u32::MAX
        &&& align_to(end, a as int) + sz <= u32::MAX
    }
}

/// The layout of a struct whose fields have the given (size, align): the
/// offset of each field, and the total size rounded up to the struct's
/// alignment, the largest field alignment.
pub open spec fn spec_struct_layout(sa: Seq<(u32, u32)>) -> (Seq<u32>, Layout) {
    let (offs, end, al) = layout_upto(sa, sa.len());
    (offs, Layout { size: align_to(end, al) as u32, align: al as u32 })
}

/// Size and alignment of a primitive, in bytes.
pub fn primitive_size_align(p: &PrimitiveType) -> (r: (u32, u32))
    ensures
        r == spec_primitive_size_align(*p),
{
    match p {
        PrimitiveType::Bool | PrimitiveType::Int8 | PrimitiveType::Uint8 => (1, 1),
        PrimitiveType::Int16 | PrimitiveType::Uint16 => (2, 2),
        PrimitiveType::Int32 | PrimitiveType::Uint32 | PrimitiveType::Float32 | PrimitiveType::Char => (
            4,
            4,
        ),
        PrimitiveType::Int64 | PrimitiveType::Uint64 | PrimitiveType::Float64 => (8, 8),
        PrimitiveType::String => (POINTER_SIZE, POINTER_ALIGN),
    }
}

/// Size and alignment of a value of type `ty` stored inline in a struct.
pub fn type_size_align(types: &[MirTypeDef], ty: &MirType) -> (r: (u32, u32))
    requires
        type_known(types@, *ty),
    ensures
        r == spec_type_size_align(types@, *ty),
{
    match ty {
        MirType::Primitive(p) => primitive_size_align(p),
        MirType::ManagedRef(_) => (POINTER_SIZE, POINTER_ALIGN),
        MirType::Pointer(_) => (POINTER_SIZE, POINTER_ALIGN),
        MirType::NullableRef(_) => (POINTER_SIZE, POINTER_ALIGN),
        MirType::FnPtr(_, _) => (POINTER_SIZE, POINTER_ALIGN),
        MirType::Closure(_) => (POINTER_SIZE, POINTER_ALIGN),
        MirType::Union(uid) => match &types[uid.0 as usize] {
            MirTypeDef::Union { layout, .. } => (layout.size, layout.align),
            _ => (0, 0),
        },
    }
}

/// Rounding up to a power of two `a` gives the least value at or above `x`
/// whose bits below `a` are all clear, that is, the least multiple of `a`.
pub proof fn lemma_align_to(x: u32, a: u32)
    by (bit_vector)
    requires
        a > 0,
        a & ((a - 1) as u32) == 0,
        x + a - 1 <= u32::MAX,
    ensures
        (((x + a - 1) as u32) & !((a - 1) as u32)) & ((a - 1) as u32) == 0,
        x <= (((x + a - 1) as u32) & !((a - 1) as u32)),
        (((x + a - 1) as u32) & !((a - 1) as u32)) < x + a,
{
}

/// Rounds `offset` up to the next multiple of `align`, a power of two:
/// adding `align - 1` carries into the next multiple, and the mask drops
/// the low bits.
fn align_up(offset: u32, align: u32) -> (r: u32)
    requires
        is_pow2(align),
        offset + align - 1 <= u32::MAX,
    ensures
        r == align_to(offset as int, align as int),
{
    let x = offset + (align - 1);
    x & !(align - 1)
}

/// Offsets of the fields of a struct with the given field types, in
/// declaration order, and the struct's layout: the C rule, each field at
/// the next offset that suits its alignment, the total rounded up to the
/// largest alignment.
pub fn compute_struct_layout(types: &[MirTypeDef], field_types: &[MirType]) -> (r: (Vec<u32>, Layout))
    requires
        forall|i: int| 0 <= i < field_types@.len() ==> type_known(types@, #[trigger] field_types@[i]),
        forall|i: int|
            0 <= i < field_types@.len() ==> is_pow2(
                (#[trigger] spec_type_size_align(types@, field_types@[i])).1,
            ),
        layout_fits(field_size_aligns(types@, field_types@), field_types@.len()),
        ({
            let (_, end, al) = layout_upto(field_size_aligns(types@, field_types@), field_types@.len());
            end + al - 1 <= u32::MAX
        }),
    ensures
        r.0@ == spec_struct_layout(field_size_aligns(types@, field_types@)).0,
        r.1 == spec_struct_layout(field_size_aligns(types@, field_types@)).1,
{
    let ghost sa = field_size_aligns(types@, field_types@);
    let mut offset = 0u32;
    let mut align = 1u32;
    assert(is_pow2(1u32)) by (bit_vector);
    let mut offsets: Vec<u32> = Vec::new();
    let mut i: usize = 0;
    while i < field_types.len()
        invariant
            i <= field_types@.len(),
            sa == field_size_aligns(types@, field_types@),
            sa.len() == field_types@.len(),
            forall|k: int| 0 <= k < field_types@.len() ==> type_known(types@, #[trigger] field_types@[k]),
            forall|k: int|
                0 <= k < field_types@.len() ==> is_pow2(
                    (#[trigger] spec_type_size_align(types@, field_types@[k])).1,
                ),
            layout_fits(sa, field_types@.len()),
            offsets@ == layout_upto(sa, i as nat).0,
            offset == layout_upto(sa, i as nat).1,
            align == layout_upto(sa, i as nat).2,
            is_pow2(align),
        decreases field_types@.len() - i,
    {
        let (sz, al) = type_size_align(types, &field_types[i]);
        proof {
            lemma_fits_prefix(sa, field_types@.len(), (i + 1) as nat);
            assert(sa[i as int] == (sz, al));
        }
        offset = align_up(offset, al);
        offsets.push(offset);
        offset = offset + sz;
        if al > align {
            align = al;
        }
        i = i + 1;
    }
    let size = align_up(offset, align);
    (offsets, Layout { size, align })
}

/// (size, align) of each field type.
pub open spec fn field_size_aligns(types: Seq<MirTypeDef>, fields: Seq<MirType>) -> Seq<(u32, u32)> {
    Seq::new(fields.len(), |i: int| spec_type_size_align(types, fields[i]))
}

/// Fitting for all fields means fitting for every prefix.
proof fn lemma_fits_prefix(sa: Seq<(u32, u32)>, n: nat, m: nat)
    requires
        layout_fits(sa, n),
        m <= n <= sa.len(),
    ensures
        layout_fits(sa, m),
    decreases n - m,
{
    if m < n {
        lemma_fits_prefix(sa, (n - 1) as nat, m);
    }
}

} // verus!

verus! {

/// Rounding a `u32` up to a power of two `a` gives a multiple of `a`,
/// no less than the value and less than `a` past it.
proof fn lemma_align_to_props(x: int, a: int)
    requires
        0 <= x,
        1 <= a <= u32::MAX,
        is_pow2(a as u32),
        x + a - 1 <= u32::MAX,
    ensures
        (align_to(x, a) as u32) & ((a - 1) as u32) == 0,
        align_to(x, a) <= u32::MAX,
        x <= align_to(x, a) < x + a,
{
    let xx = x as u32;
    let aa = a as u32;
    lemma_align_to(xx, aa);
}

/// A multiple of a power of two is a multiple of every smaller power of two.
proof fn lemma_pow2_multiple(x: u32, a: u32, b: u32)
    by (bit_vector)
    requires
        a > 0,
        a & ((a - 1) as u32) == 0,
        b > 0,
        b & ((b - 1) as u32) == 0,
        a <= b,
        x & ((b - 1) as u32) == 0,
    ensures
        x & ((a - 1) as u32) == 0,
{
}

/// The facts that the layout of the first `n` fields keeps, by induction.
proof fn lemma_layout_upto(sa: Seq<(u32, u32)>, n: nat)
    requires
        n <= sa.len(),
        layout_fits(sa, n),
        forall|i: int| 0 <= i < sa.len() ==> is_pow2(#[trigger] sa[i].1),
    ensures
        layout_upto(sa, n).0.len() == n,
        0 <= layout_upto(sa, n).1 <= u32::MAX,
        1 <= layout_upto(sa, n).2 <= u32::MAX,
        is_pow2(layout_upto(sa, n).2 as u32),
        forall|i: int|
            0 <= i < n ==> (#[trigger] layout_upto(sa, n).0[i]) & ((sa[i].1 - 1) as u32) == 0,
        forall|i: int| 0 <= i < n ==> #[trigger] layout_upto(sa, n).0[i] + sa[i].0 <= layout_upto(sa, n).1,
        forall|i: int, j: int|
            0 <= i < j < n ==> #[trigger] layout_upto(sa, n).0[i] + sa[i].0 <= #[trigger] layout_upto(sa, n).0[j],
        forall|i: int| 0 <= i < n ==> #[trigger] sa[i].1 <= layout_upto(sa, n).2,
    decreases n,
{
    assert(is_pow2(1u32)) by (bit_vector);
    if n > 0 {
        lemma_layout_upto(sa, (n - 1) as nat);
        let (offs, end, al) = layout_upto(sa, (n - 1) as nat);
        let (sz, a) = sa[n - 1];
        assert(is_pow2(sa[n - 1].1));
        assert(a >= 1) by (bit_vector)
            requires
                a > 0,
        ;
        lemma_align_to_props(end, a as int);
        let off = align_to(end, a as int);
        let (offs2, end2, al2) = layout_upto(sa, n);
        assert(offs2 == offs.push(off as u32));
        assert forall|i: int| 0 <= i < n implies (#[trigger] offs2[i]) & ((sa[i].1 - 1) as u32) == 0 by {
            if i < n - 1 {
                assert(offs2[i] == offs[i]);
            }
        }
        assert forall|i: int, j: int| 0 <= i < j < n implies #[trigger] offs2[i] + sa[i].0
            <= #[trigger] offs2[j] by {
            if j < n - 1 {
                assert(offs2[i] == offs[i]);
                assert(offs2[j] == offs[j]);
            } else {
                assert(offs2[i] == offs[i]);
            }
        }
        assert forall|i: int| 0 <= i < n implies #[trigger] offs2[i] + sa[i].0 <= end2 by {
            if i < n - 1 {
                assert(offs2[i] == offs[i]);
            }
        }
    }
}

/// The layout law of structs (the C rule): every field starts at a
/// multiple of its alignment, fields follow one another in declaration
/// order without overlapping, the struct's alignment is a power of two
/// that every field's alignment divides, and its size covers every field
/// and is a multiple of its alignment.
pub proof fn law_struct_layout(sa: Seq<(u32, u32)>)
    requires
        forall|i: int| 0 <= i < sa.len() ==> is_pow2(#[trigger] sa[i].1),
        layout_fits(sa, sa.len()),
        ({
            let (_, end, al) = layout_upto(sa, sa.len());
            end + al - 1 <= u32::MAX
        }),
    ensures
        ({
            let (offs, layout) = spec_struct_layout(sa);
            &&& offs.len() == sa.len()
            &&& is_pow2(layout.align)
            &&& forall|i: int| 0 <= i < sa.len() ==> (#[trigger] offs[i]) & ((sa[i].1 - 1) as u32) == 0
            &&& forall|i: int| 0 <= i < sa.len() ==> #[trigger] sa[i].1 <= layout.align
            &&& forall|i: int| 0 <= i < sa.len() ==> layout.align & ((#[trigger] sa[i].1 - 1) as u32) == 0
            &&& forall|i: int, j: int| 0 <= i < j < sa.len() ==> #[trigger] offs[i] + sa[i].0 <= #[trigger] offs[j]
            &&& forall|i: int| 0 <= i < sa.len() ==> #[trigger] offs[i] + sa[i].0 <= layout.size
            &&& layout.size & ((layout.align - 1) as u32) == 0
        }),
{
    lemma_layout_upto(sa, sa.len());
    let (offs, end, al) = layout_upto(sa, sa.len());
    lemma_align_to_props(end, al);
    let al32 = al as u32;
    assert forall|i: int| 0 <= i < sa.len() implies al32 & ((#[trigger] sa[i].1 - 1) as u32) == 0 by {
        let a = sa[i].1;
        assert(is_pow2(a));
        lemma_pow2_multiple(al32, a, al32);
    }
}

/// Bytes that code generation reads and writes for a primitive: the width
/// of the machine type it stores the primitive as.
pub open spec fn stored_bytes(p: PrimitiveType) -> int {
    spec_prim_type(p).spec_bits() as int / 8
}

/// A primitive takes exactly the bytes that its machine type is stored
/// in (`prim_type(p).bits() / 8`), and aligns to that width, in every
/// table of sizes that layouts use.
pub proof fn law_primitive_size_is_machine_width(p: PrimitiveType)
    ensures
        spec_primitive_size_align(p).0 as int * 8 == spec_prim_type(p).spec_bits(),
        spec_primitive_size_align(p).1 == spec_primitive_size_align(p).0,
        spec_prim_size(p) as int * 8 == spec_prim_type(p).spec_bits(),
        is_pow2(spec_primitive_size_align(p).1),
{
    assert(is_pow2(1u32)) by (bit_vector);
    assert(is_pow2(2u32)) by (bit_vector);
    assert(is_pow2(4u32)) by (bit_vector);
    assert(is_pow2(8u32)) by (bit_vector);
}

/// In a struct of primitive fields, what code generation stores for a
/// field (the width of its machine type) ends before the next field
/// starts, and within the struct: no two fields' stores overlap.
pub proof fn law_primitive_fields_do_not_overlap(types: Seq<MirTypeDef>, fields: Seq<PrimitiveType>)
    requires
        layout_fits(
            field_size_aligns(types, fields.map_values(|p: PrimitiveType| MirType::Primitive(p))),
            fields.len(),
        ),
        ({
            let sa = field_size_aligns(types, fields.map_values(|p: PrimitiveType| MirType::Primitive(p)));
            let (_, end, al) = layout_upto(sa, sa.len());
            end + al - 1 <= u32::MAX
        }),
    ensures
        ({
            let sa = field_size_aligns(types, fields.map_values(|p: PrimitiveType| MirType::Primitive(p)));
            let (offs, layout) = spec_struct_layout(sa);
            &&& forall|i: int, j: int|
                0 <= i < j < fields.len() ==> #[trigger] offs[i] + stored_bytes(fields[i]) <= #[trigger] offs[j]
            &&& forall|i: int| 0 <= i < fields.len() ==> #[trigger] offs[i] + stored_bytes(fields[i]) <= layout.size
        }),
{
    let fts = fields.map_values(|p: PrimitiveType| MirType::Primitive(p));
    let sa = field_size_aligns(types, fts);
    assert forall|i: int| 0 <= i < sa.len() implies is_pow2(#[trigger] sa[i].1) by {
        law_primitive_size_is_machine_width(fields[i]);
        assert(fts[i] == MirType::Primitive(fields[i]));
    }
    law_struct_layout(sa);
    assert forall|i: int| 0 <= i < fields.len() implies #[trigger] sa[i].0 as int == stored_bytes(fields[i]) by {
        law_primitive_size_is_machine_width(fields[i]);
        assert(fts[i] == MirType::Primitive(fields[i]));
    }
}

} // verus!
