use vstd::prelude::*;

use crate::hir::PrimitiveType;
use crate::lower::{align_up, fields_fit, fields_upto, field_sizes, spec_align_of, spec_align_up};
use crate::mir::{Abi, MirConst, MirField, MirFnId, MirFunction, MirProgram, MirType, MirTypeDef, MirTypeId};
use crate::text::{append_str, decimal, push_char, usize_to_decimal};

verus! {

/// How a function's symbol is linked.
#[derive(Debug, Clone, Copy, PartialEq, Eq, Structural)]
pub enum Linkage {
    /// Defined here and visible to the linker.
    Export,
    /// Defined elsewhere (a C function).
    Import,
    /// Defined here, for this object only.
    Local,
}

/// The symbol under which the program's entry function is exported.
pub open spec fn spec_entry_symbol() -> Seq<char> {
    "otter_main"@
}

pub fn entry_symbol() -> (r: &'static str)
    ensures
        r@ == spec_entry_symbol(),
{
    "otter_main"
}

/// A char kept in a symbol: ASCII letters and digits, `_`, `$` and `.`.
pub open spec fn symbol_char(c: char) -> bool {
    ('a' <= c && c <= 'z') || ('A' <= c && c <= 'Z') || ('0' <= c && c <= '9') || c == '_' || c == '$'
        || c == '.'
}

/// `name` with every char that is not kept in symbols replaced by `_`.
pub open spec fn spec_sanitize(name: Seq<char>) -> Seq<char> {
    name.map_values(|c: char| if symbol_char(c) { c } else { '_' })
}

/// Makes a MIR name (such as `add<i32>`) safe for assemblers.
pub fn sanitize(name: &str) -> (r: String)
    ensures
        r@ == spec_sanitize(name@),
{
    let chars = crate::text::chars_of(name);
    let mut out = String::new();
    let mut i: usize = 0;
    while i < chars.len()
        invariant
            i <= chars@.len(),
            chars@ == name@,
            out@ == spec_sanitize(name@.subrange(0, i as int)),
        decreases chars@.len() - i,
    {
        let c = chars[i];
        let kept = ('a' <= c && c <= 'z') || ('A' <= c && c <= 'Z') || ('0' <= c && c <= '9') || c == '_' || c
            == '$' || c == '.';
        if kept {
            push_char(&mut out, c);
        } else {
            push_char(&mut out, '_');
        }
        proof {
            assert(name@.subrange(0, i + 1) =~= name@.subrange(0, i as int).push(c));
            assert(spec_sanitize(name@.subrange(0, i + 1)) =~= spec_sanitize(name@.subrange(0, i as int)).push(
                if symbol_char(c) {
                    c
                } else {
                    '_'
                },
            ));
        }
        i = i + 1;
    }
    proof {
        assert(name@.subrange(0, i as int) =~= name@);
    }
    out
}

/// The symbol and linkage of a function: the entry is exported under the
/// entry symbol; an extern keeps its (sanitized) name and is imported;
/// any other function gets its sanitized name with `__` and its id, local.
pub open spec fn spec_symbol_for(id: MirFnId, name: Seq<char>, abi: Abi, entry: MirFnId) -> (Seq<char>, Linkage) {
    if id == entry {
        (spec_entry_symbol(), Linkage::Export)
    } else {
        match abi {
            Abi::Extern => (spec_sanitize(name), Linkage::Import),
            Abi::Otter => (spec_sanitize(name) + "__"@ + decimal(id.0 as nat), Linkage::Local),
        }
    }
}

pub fn symbol_for(id: MirFnId, f: &MirFunction, entry: MirFnId) -> (r: (String, Linkage))
    ensures
        (r.0@, r.1) == spec_symbol_for(id, f.name@, f.abi, entry),
{
    if id.0 == entry.0 {
        let mut s = String::new();
        append_str(&mut s, entry_symbol());
        assert(s@ =~= spec_entry_symbol());
        return (s, Linkage::Export);
    }
    match f.abi {
        Abi::Extern => (sanitize(f.name.as_str()), Linkage::Import),
        Abi::Otter => {
            let mut s = sanitize(f.name.as_str());
            append_str(&mut s, "__");
            let d = usize_to_decimal(id.0 as usize);
            append_str(&mut s, d.as_str());
            (s, Linkage::Local)
        },
    }
}

/// Alignment of a MIR type in generated code: primitives by size, every
/// reference-shaped type a pointer's.
pub fn mir_align(t: &MirType) -> (r: u32)
    ensures
        r == spec_align_of(*t),
{
    match t {
        MirType::Primitive(p) => match p {
            PrimitiveType::Int8 | PrimitiveType::Uint8 | PrimitiveType::Bool => 1,
            PrimitiveType::Int16 | PrimitiveType::Uint16 => 2,
            PrimitiveType::Int32 | PrimitiveType::Uint32 | PrimitiveType::Float32 | PrimitiveType::Char => 4,
            PrimitiveType::Int64 | PrimitiveType::Uint64 | PrimitiveType::Float64 | PrimitiveType::String => 8,
        },
        _ => 8,
    }
}

/// Size of a MIR type in generated code: the same as its alignment.
pub fn mir_size(t: &MirType) -> (r: u32)
    ensures
        r == spec_align_of(*t),
{
    mir_align(t)
}

/// The floating-point primitives.
pub fn is_float(t: &MirType) -> (r: bool)
    ensures
        r == (t matches MirType::Primitive(p) && (p is Float32 || p is Float64)),
{
    match t {
        MirType::Primitive(PrimitiveType::Float32) | MirType::Primitive(PrimitiveType::Float64) => true,
        _ => false,
    }
}

/// The signed integer primitives.
pub fn is_signed(t: &MirType) -> (r: bool)
    ensures
        r == (t matches MirType::Primitive(p) && (p is Int8 || p is Int16 || p is Int32 || p is Int64)),
{
    match t {
        MirType::Primitive(PrimitiveType::Int8)
        | MirType::Primitive(PrimitiveType::Int16)
        | MirType::Primitive(PrimitiveType::Int32)
        | MirType::Primitive(PrimitiveType::Int64) => true,
        _ => false,
    }
}

/// The MIR type of a constant: its primitive; `null` as a flag; a
/// function address as a function pointer.
pub open spec fn spec_const_type_is(c: MirConst, t: MirType) -> bool {
    match c {
        MirConst::Int(_, p) => t == MirType::Primitive(p),
        MirConst::Float(_, p) => t == MirType::Primitive(p),
        MirConst::Bool(_) => t == MirType::Primitive(PrimitiveType::Bool),
        MirConst::Char(_) => t == MirType::Primitive(PrimitiveType::Char),
        MirConst::String(_) => t == MirType::Primitive(PrimitiveType::String),
        MirConst::Null => t == MirType::Primitive(PrimitiveType::Bool),
        MirConst::Fn(_) => t matches MirType::FnPtr(params, ret) && params@.len() == 0 && *ret
            == MirType::Primitive(PrimitiveType::Bool),
    }
}

pub fn const_mir_type(c: &MirConst) -> (r: MirType)
    ensures
        spec_const_type_is(*c, r),
{
    match c {
        MirConst::Int(_, p) | MirConst::Float(_, p) => MirType::Primitive(*p),
        MirConst::Bool(_) => MirType::Primitive(PrimitiveType::Bool),
        MirConst::Char(_) => MirType::Primitive(PrimitiveType::Char),
        MirConst::String(_) => MirType::Primitive(PrimitiveType::String),
        MirConst::Null => MirType::Primitive(PrimitiveType::Bool),
        MirConst::Fn(_) => MirType::FnPtr(Vec::new(), Box::new(MirType::Primitive(PrimitiveType::Bool))),
    }
}

/// The fields of an aggregate type definition: a struct's fields or a
/// closure's environment.
pub open spec fn aggregate_fields(d: MirTypeDef) -> Option<Seq<MirField>> {
    match d {
        MirTypeDef::Struct { fields, .. } => Some(fields@),
        MirTypeDef::Closure { env_fields, .. } => Some(env_fields@),
        _ => None,
    }
}

/// The offset of each field: each at the next multiple of its alignment
/// after the previous field.
pub open spec fn spec_field_offsets(fields: Seq<MirField>) -> Seq<int> {
    Seq::new(
        fields.len(),
        |i: int| spec_align_up(fields_upto(field_sizes(fields), i as nat).0, spec_align_of(fields[i].ty) as int),
    )
}

/// The field offsets of aggregate type `mid`, whose definition is
/// `program.types[mid]`.
pub fn field_offsets(program: &MirProgram, mid: MirTypeId) -> (r: Vec<u32>)
    requires
        (mid.0 as int) < program.types@.len(),
        aggregate_fields(program.types@[mid.0 as int]) matches Some(fs) && fields_fit(
            field_sizes(fs),
            fs.len(),
        ),
    ensures
        aggregate_fields(program.types@[mid.0 as int]) matches Some(fs) && r@.len() == fs.len() && forall|i: int|
            0 <= i < fs.len() ==> r@[i] as int == #[trigger] spec_field_offsets(fs)[i],
{
    let fields: &Vec<MirField> = match &program.types[mid.0 as usize] {
        MirTypeDef::Struct { fields, .. } => fields,
        MirTypeDef::Closure { env_fields, .. } => env_fields,
        _ => {
            proof {
                assert(false);
            }
            return Vec::new();
        },
    };
    let ghost fs = fields@;
    let ghost sa = field_sizes(fs);
    let mut offs: Vec<u32> = Vec::new();
    let mut cur: u32 = 0;
    let mut i: usize = 0;
    while i < fields.len()
        invariant
            i <= fields@.len(),
            fs == fields@,
            sa == field_sizes(fs),
            fields_fit(sa, fs.len()),
            cur == fields_upto(sa, i as nat).0,
            offs@.len() == i,
            forall|k: int| 0 <= k < i ==> offs@[k] as int == #[trigger] spec_field_offsets(fs)[k],
        decreases fields@.len() - i,
    {
        proof {
            crate::lower::lemma_fields_fit_prefix(sa, fs.len(), (i + 1) as nat);
        }
        let a = mir_align(&fields[i].ty);
        cur = align_up(cur, a);
        offs.push(cur);
        cur = cur + mir_size(&fields[i].ty);
        i = i + 1;
    }
    offs
}

/// The id of a closure environment type whose function is `fid`.
pub fn closure_env_type(program: &MirProgram, fid: MirFnId) -> (r: MirTypeId)
    requires
        program.types@.len() <= u32::MAX,
        exists|i: int|
            0 <= i < program.types@.len() && (#[trigger] program.types@[i] matches MirTypeDef::Closure {
                function,
                ..
            } && function == fid),
    ensures
        (r.0 as int) < program.types@.len(),
        program.types@[r.0 as int] matches MirTypeDef::Closure { function, .. } && function == fid,
{
    let mut i: usize = 0;
    while i < program.types.len()
        invariant
            i <= program.types@.len(),
            program.types@.len() <= u32::MAX,
            forall|k: int|
                0 <= k < i ==> !(#[trigger] program.types@[k] matches MirTypeDef::Closure { function, .. }
                    && function == fid),
        decreases program.types@.len() - i,
    {
        if let MirTypeDef::Closure { function, .. } = &program.types[i] {
            if function.0 == fid.0 {
                return MirTypeId(i as u32);
            }
        }
        i = i + 1;
    }
    proof {
        assert(false);
    }
    MirTypeId(0)
}

} // verus!
