use otter_fusion::codegen::select::{bin_op, cast, cl_type, prim_type, un_op, BinInst, CastInst, ClType, FloatCond, IntCond, UnInst};
use otter_fusion::hir::PrimitiveType;
use otter_fusion::mir::{BinOp, MirType, MirTypeId, UnOp};

fn prim(p: PrimitiveType) -> MirType {
    MirType::Primitive(p)
}

#[test]
fn primitives_take_their_machine_widths() {
    assert_eq!(prim_type(&PrimitiveType::Bool), ClType::I8);
    assert_eq!(prim_type(&PrimitiveType::Uint16), ClType::I16);
    assert_eq!(prim_type(&PrimitiveType::Char), ClType::I32);
    assert_eq!(prim_type(&PrimitiveType::String), ClType::I64);
    assert_eq!(prim_type(&PrimitiveType::Float32), ClType::F32);
    assert_eq!(cl_type(&MirType::ManagedRef(MirTypeId(3)), ClType::I64), ClType::I64);
    assert_eq!(cl_type(&MirType::Union(MirTypeId(0)), ClType::I32), ClType::I32);
    assert_eq!(ClType::F64.bits(), 64);
    assert_eq!(ClType::I16.bits(), 16);
}

#[test]
fn division_and_ordering_follow_signedness() {
    assert_eq!(bin_op(&BinOp::Div, &prim(PrimitiveType::Int32)), Some(BinInst::Sdiv));
    assert_eq!(bin_op(&BinOp::Div, &prim(PrimitiveType::Uint32)), Some(BinInst::Udiv));
    assert_eq!(bin_op(&BinOp::Div, &prim(PrimitiveType::Float64)), Some(BinInst::Fdiv));
    assert_eq!(bin_op(&BinOp::Mod, &prim(PrimitiveType::Int64)), Some(BinInst::Srem));
    assert_eq!(bin_op(&BinOp::Mod, &prim(PrimitiveType::Uint8)), Some(BinInst::Urem));
    assert_eq!(
        bin_op(&BinOp::Lt, &prim(PrimitiveType::Int8)),
        Some(BinInst::Icmp(IntCond::SignedLessThan))
    );
    assert_eq!(
        bin_op(&BinOp::Ge, &prim(PrimitiveType::Uint64)),
        Some(BinInst::Icmp(IntCond::UnsignedGreaterThanOrEqual))
    );
    assert_eq!(
        bin_op(&BinOp::Le, &prim(PrimitiveType::Float32)),
        Some(BinInst::Fcmp(FloatCond::LessThanOrEqual))
    );
    assert_eq!(bin_op(&BinOp::Add, &prim(PrimitiveType::Int16)), Some(BinInst::Iadd));
    assert_eq!(bin_op(&BinOp::Mul, &prim(PrimitiveType::Float64)), Some(BinInst::Fmul));
    assert_eq!(bin_op(&BinOp::And, &prim(PrimitiveType::Bool)), Some(BinInst::Band));
    assert_eq!(
        bin_op(&BinOp::Eq, &MirType::ManagedRef(MirTypeId(1))),
        Some(BinInst::Icmp(IntCond::Equal))
    );
}

#[test]
fn float_remainder_has_no_instruction() {
    assert_eq!(bin_op(&BinOp::Mod, &prim(PrimitiveType::Float64)), None);
}

#[test]
fn unary_operations_select_by_type() {
    assert_eq!(un_op(&UnOp::Neg, &prim(PrimitiveType::Float32)), UnInst::Fneg);
    assert_eq!(un_op(&UnOp::Neg, &prim(PrimitiveType::Int32)), UnInst::Ineg);
    assert_eq!(un_op(&UnOp::Not, &prim(PrimitiveType::Bool)), UnInst::XorOne);
}

#[test]
fn casts_pick_the_conversion() {
    let p = ClType::I64;
    assert_eq!(cast(&prim(PrimitiveType::Int32), &prim(PrimitiveType::Uint32), p), CastInst::Identity);
    assert_eq!(cast(&prim(PrimitiveType::Int8), &prim(PrimitiveType::Int64), p), CastInst::Sextend(ClType::I64));
    assert_eq!(cast(&prim(PrimitiveType::Uint8), &prim(PrimitiveType::Int64), p), CastInst::Uextend(ClType::I64));
    assert_eq!(cast(&prim(PrimitiveType::Int64), &prim(PrimitiveType::Int16), p), CastInst::Ireduce(ClType::I16));
    assert_eq!(cast(&prim(PrimitiveType::Float32), &prim(PrimitiveType::Float64), p), CastInst::Fpromote(ClType::F64));
    assert_eq!(cast(&prim(PrimitiveType::Float64), &prim(PrimitiveType::Float32), p), CastInst::Fdemote(ClType::F32));
    assert_eq!(cast(&prim(PrimitiveType::Float64), &prim(PrimitiveType::Int32), p), CastInst::FcvtToSint(ClType::I32));
    assert_eq!(cast(&prim(PrimitiveType::Float64), &prim(PrimitiveType::Uint32), p), CastInst::FcvtToUint(ClType::I32));
    assert_eq!(cast(&prim(PrimitiveType::Int64), &prim(PrimitiveType::Float64), p), CastInst::FcvtFromSint(ClType::F64));
    assert_eq!(cast(&prim(PrimitiveType::Uint64), &prim(PrimitiveType::Float32), p), CastInst::FcvtFromUint(ClType::F32));
    assert_eq!(cast(&MirType::ManagedRef(MirTypeId(2)), &prim(PrimitiveType::Int64), p), CastInst::Identity);
    assert_eq!(cast(&MirType::ManagedRef(MirTypeId(2)), &prim(PrimitiveType::Int32), p), CastInst::Ireduce(ClType::I32));
}
