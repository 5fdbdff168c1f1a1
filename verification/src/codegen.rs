pub mod select;
pub mod symbols;

use vstd::prelude::*;

use crate::hir::PrimitiveType;

verus! {

/// The signed integer primitives.
pub open spec fn spec_is_signed_int(p: PrimitiveType) -> bool {
    p is Int8 || p is Int16 || p is Int32 || p is Int64
}

/// The floating-point primitives.
pub open spec fn spec_is_float(p: PrimitiveType) -> bool {
    p is Float32 || p is Float64
}

/// The primitives held as integers in registers: integers and chars.
pub open spec fn spec_is_int_or_char(p: PrimitiveType) -> bool {
    !(p is Float32 || p is Float64 || p is Bool || p is String)
}

pub fn is_signed_int(p: &PrimitiveType) -> (r: bool)
    ensures
        r == spec_is_signed_int(*p),
{
    match p {
        PrimitiveType::Int8 | PrimitiveType::Int16 | PrimitiveType::Int32 | PrimitiveType::Int64 => true,
        _ => false,
    }
}

pub fn is_float(p: &PrimitiveType) -> (r: bool)
    ensures
        r == spec_is_float(*p),
{
    match p {
        PrimitiveType::Float32 | PrimitiveType::Float64 => true,
        _ => false,
    }
}

pub fn is_int_or_char(p: &PrimitiveType) -> (r: bool)
    ensures
        r == spec_is_int_or_char(*p),
{
    match p {
        PrimitiveType::Int8
        | PrimitiveType::Int16
        | PrimitiveType::Int32
        | PrimitiveType::Int64
        | PrimitiveType::Uint8
        | PrimitiveType::Uint16
        | PrimitiveType::Uint32
        | PrimitiveType::Uint64
        | PrimitiveType::Char => true,
        _ => false,
    }
}

} // verus!
