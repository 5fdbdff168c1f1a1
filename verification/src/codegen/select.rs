use vstd::prelude::*;

use crate::codegen::symbols::{is_float, is_signed};
use crate::hir::PrimitiveType;
use crate::mir::{BinOp, MirType, UnOp};

verus! {

/// A machine value type of the code generator.
#[derive(Debug, Clone, Copy, PartialEq, Eq, Structural)]
pub enum ClType {
    I8,
    I16,
    I32,
    I64,
    F32,
    F64,
}

impl ClType {
    pub open spec fn spec_bits(self) -> u32 {
        match self {
            ClType::I8 => 8,
            ClType::I16 => 16,
            ClType::I32 | ClType::F32 => 32,
            ClType::I64 | ClType::F64 => 64,
        }
    }

    /// The width of the type in bits.
    pub fn bits(&self) -> (r: u32)
        ensures
            r == self.spec_bits(),
    {
        match self {
            ClType::I8 => 8,
            ClType::I16 => 16,
            ClType::I32 | ClType::F32 => 32,
            ClType::I64 | ClType::F64 => 64,
        }
    }
}

/// Integer comparison conditions.
#[derive(Debug, Clone, Copy, PartialEq, Eq, Structural)]
pub enum IntCond {
    Equal,
    NotEqual,
    SignedLessThan,
    SignedLessThanOrEqual,
    SignedGreaterThan,
    SignedGreaterThanOrEqual,
    UnsignedLessThan,
    UnsignedLessThanOrEqual,
    UnsignedGreaterThan,
    UnsignedGreaterThanOrEqual,
}

/// Floating-point comparison conditions.
#[derive(Debug, Clone, Copy, PartialEq, Eq, Structural)]
pub enum FloatCond {
    Equal,
    NotEqual,
    LessThan,
    LessThanOrEqual,
    GreaterThan,
    GreaterThanOrEqual,
}

/// The machine instruction that a binary operation becomes.
#[derive(Debug, Clone, Copy, PartialEq, Eq, Structural)]
pub enum BinInst {
    Iadd,
    Isub,
    Imul,
    Sdiv,
    Udiv,
    Srem,
    Urem,
    Fadd,
    Fsub,
    Fmul,
    Fdiv,
    Band,
    Bor,
    Icmp(IntCond),
    Fcmp(FloatCond),
}

/// The machine instruction that a unary operation becomes: a negation, or
/// an exclusive or with the 8-bit constant 1 (logical not of a flag).
#[derive(Debug, Clone, Copy, PartialEq, Eq, Structural)]
pub enum UnInst {
    Ineg,
    Fneg,
    XorOne,
}

/// The conversion that a cast between two machine types becomes.
#[derive(Debug, Clone, Copy, PartialEq, Eq, Structural)]
pub enum CastInst {
    /// Same machine type: the value itself.
    Identity,
    Fpromote(ClType),
    Fdemote(ClType),
    FcvtToSint(ClType),
    FcvtToUint(ClType),
    FcvtFromSint(ClType),
    FcvtFromUint(ClType),
    Sextend(ClType),
    Uextend(ClType),
    Ireduce(ClType),
}

/// The machine type of a primitive: flags and bytes take 8 bits, chars 32,
/// strings a 64-bit handle.
pub open spec fn spec_prim_type(p: PrimitiveType) -> ClType {
    match p {
        PrimitiveType::Bool | PrimitiveType::Int8 | PrimitiveType::Uint8 => ClType::I8,
        PrimitiveType::Int16 | PrimitiveType::Uint16 => ClType::I16,
        PrimitiveType::Int32 | PrimitiveType::Uint32 | PrimitiveType::Char => ClType::I32,
        PrimitiveType::Int64 | PrimitiveType::Uint64 => ClType::I64,
        PrimitiveType::Float32 => ClType::F32,
        PrimitiveType::Float64 => ClType::F64,
        PrimitiveType::String => ClType::I64,
    }
}

/// The machine type of a primitive.
pub fn prim_type(p: &PrimitiveType) -> (r: ClType)
    ensures
        r == spec_prim_type(*p),
{
    match p {
        PrimitiveType::Bool | PrimitiveType::Int8 | PrimitiveType::Uint8 => ClType::I8,
        PrimitiveType::Int16 | PrimitiveType::Uint16 => ClType::I16,
        PrimitiveType::Int32 | PrimitiveType::Uint32 | PrimitiveType::Char => ClType::I32,
        PrimitiveType::Int64 | PrimitiveType::Uint64 => ClType::I64,
        PrimitiveType::Float32 => ClType::F32,
        PrimitiveType::Float64 => ClType::F64,
        PrimitiveType::String => ClType::I64,
    }
}

/// The machine type of a MIR type: a primitive's own, any reference, pointer
/// or function the pointer type `ptr`.
pub open spec fn spec_cl_type(ty: MirType, ptr: ClType) -> ClType {
    match ty {
        MirType::Primitive(p) => spec_prim_type(p),
        _ => ptr,
    }
}

/// The machine type of a MIR type, given the target's pointer type.
pub fn cl_type(ty: &MirType, ptr: ClType) -> (r: ClType)
    ensures
        r == spec_cl_type(*ty, ptr),
{
    match ty {
        MirType::Primitive(p) => prim_type(p),
        MirType::ManagedRef(_) | MirType::Pointer(_) | MirType::FnPtr(_, _) | MirType::Closure(_)
        | MirType::NullableRef(_) | MirType::Union(_) => ptr,
    }
}

pub open spec fn spec_is_float(t: MirType) -> bool {
    t matches MirType::Primitive(p) && (p is Float32 || p is Float64)
}

pub open spec fn spec_is_signed(t: MirType) -> bool {
    t matches MirType::Primitive(p) && (p is Int8 || p is Int16 || p is Int32 || p is Int64)
}

/// The instruction for a binary operation whose left operand has type
/// `lhs`: float operands take the float instructions; integer division,
/// remainder and ordering follow the operand's signedness; `and` and `or`
/// are bitwise. A float remainder has no instruction: `None`.
pub open spec fn spec_bin_inst(op: BinOp, lhs: MirType) -> Option<BinInst> {
    let float = spec_is_float(lhs);
    let signed = spec_is_signed(lhs);
    match op {
        BinOp::Add => Some(if float { BinInst::Fadd } else { BinInst::Iadd }),
        BinOp::Sub => Some(if float { BinInst::Fsub } else { BinInst::Isub }),
        BinOp::Mul => Some(if float { BinInst::Fmul } else { BinInst::Imul }),
        BinOp::Div => Some(if float { BinInst::Fdiv } else if signed { BinInst::Sdiv } else { BinInst::Udiv }),
        BinOp::Mod => if float {
            None
        } else if signed {
            Some(BinInst::Srem)
        } else {
            Some(BinInst::Urem)
        },
        BinOp::And => Some(BinInst::Band),
        BinOp::Or => Some(BinInst::Bor),
        BinOp::Eq => Some(if float { BinInst::Fcmp(FloatCond::Equal) } else { BinInst::Icmp(IntCond::Equal) }),
        BinOp::Neq => Some(
            if float {
                BinInst::Fcmp(FloatCond::NotEqual)
            } else {
                BinInst::Icmp(IntCond::NotEqual)
            },
        ),
        BinOp::Lt => Some(
            if float {
                BinInst::Fcmp(FloatCond::LessThan)
            } else if signed {
                BinInst::Icmp(IntCond::SignedLessThan)
            } else {
                BinInst::Icmp(IntCond::UnsignedLessThan)
            },
        ),
        BinOp::Le => Some(
            if float {
                BinInst::Fcmp(FloatCond::LessThanOrEqual)
            } else if signed {
                BinInst::Icmp(IntCond::SignedLessThanOrEqual)
            } else {
                BinInst::Icmp(IntCond::UnsignedLessThanOrEqual)
            },
        ),
        BinOp::Gt => Some(
            if float {
                BinInst::Fcmp(FloatCond::GreaterThan)
            } else if signed {
                BinInst::Icmp(IntCond::SignedGreaterThan)
            } else {
                BinInst::Icmp(IntCond::UnsignedGreaterThan)
            },
        ),
        BinOp::Ge => Some(
            if float {
                BinInst::Fcmp(FloatCond::GreaterThanOrEqual)
            } else if signed {
                BinInst::Icmp(IntCond::SignedGreaterThanOrEqual)
            } else {
                BinInst::Icmp(IntCond::UnsignedGreaterThanOrEqual)
            },
        ),
    }
}

/// Selects the instruction for a binary operation on operands of type `lhs`.
pub fn bin_op(op: &BinOp, lhs: &MirType) -> (r: Option<BinInst>)
    ensures
        r == spec_bin_inst(*op, *lhs),
{
    let signed = is_signed(lhs);
    let float = is_float(lhs);
    match op {
        BinOp::Add => Some(if float { BinInst::Fadd } else { BinInst::Iadd }),
        BinOp::Sub => Some(if float { BinInst::Fsub } else { BinInst::Isub }),
        BinOp::Mul => Some(if float { BinInst::Fmul } else { BinInst::Imul }),
        BinOp::Div => Some(
            if float {
                BinInst::Fdiv
            } else if signed {
                BinInst::Sdiv
            } else {
                BinInst::Udiv
            },
        ),
        BinOp::Mod => {
            if float {
                None
            } else if signed {
                Some(BinInst::Srem)
            } else {
                Some(BinInst::Urem)
            }
        },
        BinOp::And => Some(BinInst::Band),
        BinOp::Or => Some(BinInst::Bor),
        BinOp::Eq => Some(
            if float {
                BinInst::Fcmp(FloatCond::Equal)
            } else {
                BinInst::Icmp(IntCond::Equal)
            },
        ),
        BinOp::Neq => Some(
            if float {
                BinInst::Fcmp(FloatCond::NotEqual)
            } else {
                BinInst::Icmp(IntCond::NotEqual)
            },
        ),
        BinOp::Lt => Some(
            if float {
                BinInst::Fcmp(FloatCond::LessThan)
            } else if signed {
                BinInst::Icmp(IntCond::SignedLessThan)
            } else {
                BinInst::Icmp(IntCond::UnsignedLessThan)
            },
        ),
        BinOp::Le => Some(
            if float {
                BinInst::Fcmp(FloatCond::LessThanOrEqual)
            } else if signed {
                BinInst::Icmp(IntCond::SignedLessThanOrEqual)
            } else {
                BinInst::Icmp(IntCond::UnsignedLessThanOrEqual)
            },
        ),
        BinOp::Gt => Some(
            if float {
                BinInst::Fcmp(FloatCond::GreaterThan)
            } else if signed {
                BinInst::Icmp(IntCond::SignedGreaterThan)
            } else {
                BinInst::Icmp(IntCond::UnsignedGreaterThan)
            },
        ),
        BinOp::Ge => Some(
            if float {
                BinInst::Fcmp(FloatCond::GreaterThanOrEqual)
            } else if signed {
                BinInst::Icmp(IntCond::SignedGreaterThanOrEqual)
            } else {
                BinInst::Icmp(IntCond::UnsignedGreaterThanOrEqual)
            },
        ),
    }
}

/// Selects the instruction for a unary operation on an operand of type
/// `ty`: negation by the float or integer instruction, `not` by flipping
/// the low bit.
pub fn un_op(op: &UnOp, ty: &MirType) -> (r: UnInst)
    ensures
        r == (match *op {
            UnOp::Neg => if spec_is_float(*ty) {
                UnInst::Fneg
            } else {
                UnInst::Ineg
            },
            UnOp::Not => UnInst::XorOne,
        }),
{
    match op {
        UnOp::Neg => {
            if is_float(ty) {
                UnInst::Fneg
            } else {
                UnInst::Ineg
            }
        },
        UnOp::Not => UnInst::XorOne,
    }
}

/// The conversion from `src` to `dst` on a target whose pointers are `ptr`:
/// nothing when both have the same machine type; between floats a
/// promotion to a wider or a demotion to a narrower one; between a float and
/// an integer the conversion that the integer side's signedness asks; between
/// integers a sign or zero extension (by the source's signedness) to a wider
/// type and a truncation to a narrower one.
pub open spec fn spec_cast_inst(src: MirType, dst: MirType, ptr: ClType) -> CastInst {
    let st = spec_cl_type(src, ptr);
    let dt = spec_cl_type(dst, ptr);
    if st == dt {
        CastInst::Identity
    } else if spec_is_float(src) && spec_is_float(dst) {
        if dt.spec_bits() > st.spec_bits() {
            CastInst::Fpromote(dt)
        } else {
            CastInst::Fdemote(dt)
        }
    } else if spec_is_float(src) {
        if spec_is_signed(dst) {
            CastInst::FcvtToSint(dt)
        } else {
            CastInst::FcvtToUint(dt)
        }
    } else if spec_is_float(dst) {
        if spec_is_signed(src) {
            CastInst::FcvtFromSint(dt)
        } else {
            CastInst::FcvtFromUint(dt)
        }
    } else if dt.spec_bits() > st.spec_bits() {
        if spec_is_signed(src) {
            CastInst::Sextend(dt)
        } else {
            CastInst::Uextend(dt)
        }
    } else {
        CastInst::Ireduce(dt)
    }
}

/// Selects the conversion for a cast from `src` to `dst`.
pub fn cast(src: &MirType, dst: &MirType, ptr: ClType) -> (r: CastInst)
    ensures
        r == spec_cast_inst(*src, *dst, ptr),
{
    let st = cl_type(src, ptr);
    let dt = cl_type(dst, ptr);
    if st == dt {
        return CastInst::Identity;
    }
    let src_float = is_float(src);
    let dst_float = is_float(dst);
    let src_signed = is_signed(src);
    if src_float && dst_float {
        if dt.bits() > st.bits() {
            CastInst::Fpromote(dt)
        } else {
            CastInst::Fdemote(dt)
        }
    } else if src_float {
        if is_signed(dst) {
            CastInst::FcvtToSint(dt)
        } else {
            CastInst::FcvtToUint(dt)
        }
    } else if dst_float {
        if src_signed {
            CastInst::FcvtFromSint(dt)
        } else {
            CastInst::FcvtFromUint(dt)
        }
    } else if dt.bits() > st.bits() {
        if src_signed {
            CastInst::Sextend(dt)
        } else {
            CastInst::Uextend(dt)
        }
    } else {
        CastInst::Ireduce(dt)
    }
}


/// How a binary operation on operands of a primitive type is lowered: a
/// string `+`, `==` or `!=` calls a runtime helper (comparing the string
/// references would compare addresses, not contents); anything else is a
/// machine instruction.
#[derive(Debug, Clone, Copy, PartialEq, Eq, Structural)]
pub enum BinRoute {
    /// The result of the helper `__of_str_concat`.
    StrConcat,
    /// The flag that the helper `__of_str_eq` returns.
    StrEq,
    /// The flag that the helper `__of_str_eq` returns, flipped by an
    /// exclusive or with 1.
    StrNeq,
    Inst(BinInst),
}

/// The lowering of a binary operation on operands of type `prim`. A float
/// remainder, and `and` or `or` on floats, have none.
pub open spec fn spec_bin_route(op: BinOp, prim: PrimitiveType) -> Option<BinRoute> {
    if prim is String && op is Add {
        Some(BinRoute::StrConcat)
    } else if prim is String && op is Eq {
        Some(BinRoute::StrEq)
    } else if prim is String && op is Neq {
        Some(BinRoute::StrNeq)
    } else if (prim is Float32 || prim is Float64) && (op is And || op is Or) {
        None
    } else {
        match spec_bin_inst(op, MirType::Primitive(prim)) {
            Some(i) => Some(BinRoute::Inst(i)),
            None => None,
        }
    }
}

/// Chooses how a binary operation on operands of type `prim` is lowered.
pub fn bin_route(op: &BinOp, prim: &PrimitiveType) -> (r: Option<BinRoute>)
    ensures
        r == spec_bin_route(*op, *prim),
{
    let is_string = match prim {
        PrimitiveType::String => true,
        _ => false,
    };
    let is_float_prim = match prim {
        PrimitiveType::Float32 | PrimitiveType::Float64 => true,
        _ => false,
    };
    match op {
        BinOp::Add if is_string => Some(BinRoute::StrConcat),
        BinOp::Eq if is_string => Some(BinRoute::StrEq),
        BinOp::Neq if is_string => Some(BinRoute::StrNeq),
        BinOp::And if is_float_prim => None,
        BinOp::Or if is_float_prim => None,
        _ => match bin_op(op, &MirType::Primitive(*prim)) {
            Some(i) => Some(BinRoute::Inst(i)),
            None => None,
        },
    }
}

/// The runtime helper a route calls, if any.
pub fn route_helper(r: &BinRoute) -> (name: Option<&'static str>)
    ensures
        match *r {
            BinRoute::StrConcat => name == Some("__of_str_concat"),
            BinRoute::StrEq | BinRoute::StrNeq => name == Some("__of_str_eq"),
            BinRoute::Inst(_) => name is None,
        },
{
    match r {
        BinRoute::StrConcat => Some("__of_str_concat"),
        BinRoute::StrEq | BinRoute::StrNeq => Some("__of_str_eq"),
        BinRoute::Inst(_) => None,
    }
}

/// The condition that compares with the operands swapped: `a < b` is
/// `b > a`; equality does not care about order.
pub open spec fn swapped_int_cond(c: IntCond) -> IntCond {
    match c {
        IntCond::Equal => IntCond::Equal,
        IntCond::NotEqual => IntCond::NotEqual,
        IntCond::SignedLessThan => IntCond::SignedGreaterThan,
        IntCond::SignedLessThanOrEqual => IntCond::SignedGreaterThanOrEqual,
        IntCond::SignedGreaterThan => IntCond::SignedLessThan,
        IntCond::SignedGreaterThanOrEqual => IntCond::SignedLessThanOrEqual,
        IntCond::UnsignedLessThan => IntCond::UnsignedGreaterThan,
        IntCond::UnsignedLessThanOrEqual => IntCond::UnsignedGreaterThanOrEqual,
        IntCond::UnsignedGreaterThan => IntCond::UnsignedLessThan,
        IntCond::UnsignedGreaterThanOrEqual => IntCond::UnsignedLessThanOrEqual,
    }
}

pub open spec fn swapped_float_cond(c: FloatCond) -> FloatCond {
    match c {
        FloatCond::Equal => FloatCond::Equal,
        FloatCond::NotEqual => FloatCond::NotEqual,
        FloatCond::LessThan => FloatCond::GreaterThan,
        FloatCond::LessThanOrEqual => FloatCond::GreaterThanOrEqual,
        FloatCond::GreaterThan => FloatCond::LessThan,
        FloatCond::GreaterThanOrEqual => FloatCond::LessThanOrEqual,
    }
}

/// An integer condition that reads its operands as two's-complement
/// signed numbers.
pub open spec fn is_signed_cond(c: IntCond) -> bool {
    c is SignedLessThan || c is SignedLessThanOrEqual || c is SignedGreaterThan || c is SignedGreaterThanOrEqual
}

/// The instruction `bin_op` selects for `op` on operands of type `lhs`.
pub open spec fn selected(op: BinOp, lhs: MirType) -> Option<BinInst> {
    spec_bin_inst(op, lhs)
}

/// Ordering comparisons, division and remainder on a primitive: `a > b`
/// is `b < a` and `a >= b` is `b <= a` (the same instruction with the
/// operands swapped); on integers the comparison, the division and the
/// remainder read the operands as signed exactly when the type is one of
/// the signed integers `Int8`, `Int16`, `Int32`, `Int64`, and unsigned
/// otherwise; on floats every comparison is a float comparison.
pub proof fn law_ordering_follows_signedness(p: PrimitiveType)
    ensures
        ({
            let t = MirType::Primitive(p);
            let signed = p == PrimitiveType::Int8 || p == PrimitiveType::Int16 || p == PrimitiveType::Int32 || p
                == PrimitiveType::Int64;
            if p == PrimitiveType::Float32 || p == PrimitiveType::Float64 {
                &&& selected(BinOp::Lt, t) matches Some(BinInst::Fcmp(lt))
                &&& selected(BinOp::Le, t) matches Some(BinInst::Fcmp(le))
                &&& selected(BinOp::Gt, t) == Some(BinInst::Fcmp(swapped_float_cond(lt)))
                &&& selected(BinOp::Ge, t) == Some(BinInst::Fcmp(swapped_float_cond(le)))
                &&& lt == FloatCond::LessThan
                &&& le == FloatCond::LessThanOrEqual
            } else {
                &&& selected(BinOp::Lt, t) matches Some(BinInst::Icmp(lt))
                &&& selected(BinOp::Le, t) matches Some(BinInst::Icmp(le))
                &&& selected(BinOp::Gt, t) == Some(BinInst::Icmp(swapped_int_cond(lt)))
                &&& selected(BinOp::Ge, t) == Some(BinInst::Icmp(swapped_int_cond(le)))
                &&& is_signed_cond(lt) == signed
                &&& is_signed_cond(le) == signed
                &&& is_signed_cond(swapped_int_cond(lt)) == signed
                &&& is_signed_cond(swapped_int_cond(le)) == signed
                &&& (lt is SignedLessThan || lt is UnsignedLessThan)
                &&& (le is SignedLessThanOrEqual || le is UnsignedLessThanOrEqual)
                &&& selected(BinOp::Div, t) == Some(if signed { BinInst::Sdiv } else { BinInst::Udiv })
                &&& selected(BinOp::Mod, t) == Some(if signed { BinInst::Srem } else { BinInst::Urem })
            }
        }),
{
}

} // verus!
