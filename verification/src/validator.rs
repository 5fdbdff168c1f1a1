use vstd::prelude::*;

use crate::hir::{
    clone_types, lemma_models, model, models, HirFunction, HirStruct, PrimitiveType, ResolvedType, TypeModel, TypeParamId,
};
use crate::lower::subst::{bound_upto, rename_params, subst_model, Subst};
use crate::text::{append_str, decimal, usize_to_decimal};
use crate::ast::{ExternParam, FieldDecl, FunctionDecl, GenericParam, ParamDecl, ImportSymbol, ImportSymbols, Item, ItemKind, Module, TypeAliasDecl, TypeExpr};
use crate::hir::{FnId, Hir, HirField, HirImport, HirImportSymbol, HirInterface, HirModule, HirParam, ModuleId, TypeId, TypeParamInfo};

verus! {

/// What validation can report about a program.
#[derive(Debug, Clone)]
#[allow(inconsistent_fields)]
pub enum ValidationError {
    DuplicateModule { name: String },
    UnknownImportModule { in_module: String, target: String },
    SelfImport { module: String },
    DuplicateName { module: String, name: String },
    UnknownImportSymbol { in_module: String, from_module: String, symbol: String },
    DuplicateImport { in_module: String, local_name: String },
    UnknownType { module: String, name: String },
    GenericArgsOnTypeParam { module: String, name: String },
    GenericArityMismatch { module: String, name: String, expected: usize, actual: usize },
    DuplicateGenericParam { scope: String, name: String },
    BoundNotInterface { scope: String, type_param: String },
    ExpectedTypeFoundFunction { module: String, name: String },
    PointerOutsideExtern { location: String },
    DuplicateMethod { type_label: String, method: String },
    DuplicateField { type_label: String, field: String },
    DuplicateParam { function: String, param: String },
    InvalidExtendTarget { module: String },
    ImplementsNotInterface { type_label: String },
    MissingInterfaceMember { type_label: String, interface: String, member: String },
    InterfaceMemberMismatch { type_label: String, interface: String, member: String },
    UnknownVariable { function: String, name: String },
    TypeUsedAsValue { function: String, name: String },
    VariableNeedsType { function: String, name: String },
    TypeMismatch { function: String, context: String, expected: String, actual: String },
    NotCallable { function: String, context: String },
    CallArityMismatch { function: String, callee: String, expected: usize, actual: usize },
    UnknownMember { function: String, on: String, member: String },
    InvalidStructInit { function: String, context: String },
    MissingFieldInit { function: String, struct_name: String, field: String },
    ExtraFieldInit { function: String, struct_name: String, field: String },
    InvalidOperator { function: String, op: String, operand_ty: String },
    BreakOutsideLoop { function: String },
    ContinueOutsideLoop { function: String },
    LiteralOutOfRange { function: String, literal: String },
    /// An `extern struct` that declares an interface: virtual dispatch reads
    /// a type-id header that extern structs do not have.
    ExternStructImplementsInterface { type_label: String },
    /// A field of an `extern struct` whose type is GC-managed: the collector
    /// cannot trace into headerless extern structs.
    ExternStructFieldManagedRef { type_label: String, field: String, ty: String },
    /// An `extern struct` used as a generic type argument: generic code is
    /// monomorphized for managed references.
    ExternStructAsGenericArg { module: String, name: String },
}

/// The text of each error.
pub open spec fn spec_validation_message(e: ValidationError) -> Seq<char> {
    match e {
        ValidationError::DuplicateModule { name } => "duplicate module '"@ + name@ + "'"@,
        ValidationError::UnknownImportModule { in_module, target } => "module '"@ + in_module@ + "' imports unknown module '"@ + target@ + "'"@,
        ValidationError::SelfImport { module } => "module '"@ + module@ + "' cannot import itself"@,
        ValidationError::DuplicateName { module, name } => "duplicate top-level name '"@ + name@ + "' in module '"@ + module@ + "'"@,
        ValidationError::UnknownImportSymbol { in_module, from_module, symbol } => "module '"@ + in_module@ + "' imports unknown symbol '"@ + symbol@ + "' from '"@ + from_module@ + "'"@,
        ValidationError::DuplicateImport { in_module, local_name } => "duplicate import '"@ + local_name@ + "' in module '"@ + in_module@ + "'"@,
        ValidationError::UnknownType { module, name } => "unknown type '"@ + name@ + "' in module '"@ + module@ + "'"@,
        ValidationError::GenericArgsOnTypeParam { module, name } => "generic arguments not allowed on type parameter '"@ + name@ + "' in module '"@ + module@ + "'"@,
        ValidationError::GenericArityMismatch { module, name, expected, actual } => "type '"@ + name@ + "' in module '"@ + module@ + "' expects "@ + decimal(expected as nat) + " generic argument(s), got "@ + decimal(actual as nat),
        ValidationError::DuplicateGenericParam { scope, name } => "duplicate generic parameter '"@ + name@ + "' in "@ + scope@,
        ValidationError::BoundNotInterface { scope, type_param } => "bound on type parameter '"@ + type_param@ + "' in "@ + scope@ + " must be an interface"@,
        ValidationError::ExpectedTypeFoundFunction { module, name } => "expected type, found function '"@ + name@ + "' in module '"@ + module@ + "'"@,
        ValidationError::PointerOutsideExtern { location } => "pointer type '*T' is only allowed in extern declarations ("@ + location@ + ")"@,
        ValidationError::DuplicateMethod { type_label, method } => "duplicate method '"@ + method@ + "' on type '"@ + type_label@ + "'"@,
        ValidationError::DuplicateField { type_label, field } => "duplicate field '"@ + field@ + "' on type '"@ + type_label@ + "'"@,
        ValidationError::DuplicateParam { function, param } => "duplicate parameter '"@ + param@ + "' in function '"@ + function@ + "'"@,
        ValidationError::InvalidExtendTarget { module } => "invalid extend target in module '"@ + module@ + "'"@,
        ValidationError::ImplementsNotInterface { type_label } => "type '"@ + type_label@ + "' implements clause references a non-interface"@,
        ValidationError::MissingInterfaceMember { type_label, interface, member } => "type '"@ + type_label@ + "' is missing member '"@ + member@ + "' required by interface '"@ + interface@ + "'"@,
        ValidationError::InterfaceMemberMismatch { type_label, interface, member } => "type '"@ + type_label@ + "' member '"@ + member@ + "' does not match interface '"@ + interface@ + "'"@,
        ValidationError::UnknownVariable { function, name } => "unknown variable '"@ + name@ + "' in function '"@ + function@ + "'"@,
        ValidationError::TypeUsedAsValue { function, name } => "type '"@ + name@ + "' used as value in function '"@ + function@ + "'"@,
        ValidationError::VariableNeedsType { function, name } => "variable '"@ + name@ + "' in function '"@ + function@ + "' needs an explicit type annotation"@,
        ValidationError::TypeMismatch { function, context, expected, actual } => "type mismatch in function '"@ + function@ + "' ("@ + context@ + "): expected '"@ + expected@ + "', found '"@ + actual@ + "'"@,
        ValidationError::NotCallable { function, context } => "expression is not callable in function '"@ + function@ + "' ("@ + context@ + ")"@,
        ValidationError::CallArityMismatch { function, callee, expected, actual } => "call to '"@ + callee@ + "' in function '"@ + function@ + "' expects "@ + decimal(expected as nat) + " argument(s), got "@ + decimal(actual as nat),
        ValidationError::UnknownMember { function, on, member } => "unknown member '"@ + member@ + "' on '"@ + on@ + "' in function '"@ + function@ + "'"@,
        ValidationError::InvalidStructInit { function, context } => "invalid struct initializer in function '"@ + function@ + "' ("@ + context@ + ")"@,
        ValidationError::MissingFieldInit { function, struct_name, field } => "missing field '"@ + field@ + "' when initializing '"@ + struct_name@ + "' in function '"@ + function@ + "'"@,
        ValidationError::ExtraFieldInit { function, struct_name, field } => "unknown field '"@ + field@ + "' when initializing '"@ + struct_name@ + "' in function '"@ + function@ + "'"@,
        ValidationError::InvalidOperator { function, op, operand_ty } => "invalid operator '"@ + op@ + "' for operand of type '"@ + operand_ty@ + "' in function '"@ + function@ + "'"@,
        ValidationError::BreakOutsideLoop { function } => "'break' used outside of a loop in function '"@ + function@ + "'"@,
        ValidationError::ContinueOutsideLoop { function } => "'continue' used outside of a loop in function '"@ + function@ + "'"@,
        ValidationError::LiteralOutOfRange { function, literal } => "literal '"@ + literal@ + "' is out of range in function '"@ + function@ + "'"@,
        ValidationError::ExternStructImplementsInterface { type_label } => "extern struct '"@ + type_label@ + "' cannot implement interfaces (no GC header for virtual dispatch)"@,
        ValidationError::ExternStructFieldManagedRef { type_label, field, ty } => "extern struct '"@ + type_label@ + "' field '"@ + field@ + "' has GC-managed type '"@ + ty@ + "' (extern structs cannot hold managed refs — GC can't trace them)"@,
        ValidationError::ExternStructAsGenericArg { module, name } => "extern struct '"@ + name@ + "' in module '"@ + module@ + "' cannot be used as a generic type argument"@,
    }
}

impl ValidationError {
    /// The error as text, for the user.
    pub fn message(&self) -> (r: String)
        ensures
            r@ == spec_validation_message(*self),
    {
        let mut out = String::new();
        match self {
            ValidationError::DuplicateModule { name } => {
                append_str(&mut out, "duplicate module '");
                append_str(&mut out, name.as_str());
                append_str(&mut out, "'");
            },
            ValidationError::UnknownImportModule { in_module, target } => {
                append_str(&mut out, "module '");
                append_str(&mut out, in_module.as_str());
                append_str(&mut out, "' imports unknown module '");
                append_str(&mut out, target.as_str());
                append_str(&mut out, "'");
            },
            ValidationError::SelfImport { module } => {
                append_str(&mut out, "module '");
                append_str(&mut out, module.as_str());
                append_str(&mut out, "' cannot import itself");
            },
            ValidationError::DuplicateName { module, name } => {
                append_str(&mut out, "duplicate top-level name '");
                append_str(&mut out, name.as_str());
                append_str(&mut out, "' in module '");
                append_str(&mut out, module.as_str());
                append_str(&mut out, "'");
            },
            ValidationError::UnknownImportSymbol { in_module, from_module, symbol } => {
                append_str(&mut out, "module '");
                append_str(&mut out, in_module.as_str());
                append_str(&mut out, "' imports unknown symbol '");
                append_str(&mut out, symbol.as_str());
                append_str(&mut out, "' from '");
                append_str(&mut out, from_module.as_str());
                append_str(&mut out, "'");
            },
            ValidationError::DuplicateImport { in_module, local_name } => {
                append_str(&mut out, "duplicate import '");
                append_str(&mut out, local_name.as_str());
                append_str(&mut out, "' in module '");
                append_str(&mut out, in_module.as_str());
                append_str(&mut out, "'");
            },
            ValidationError::UnknownType { module, name } => {
                append_str(&mut out, "unknown type '");
                append_str(&mut out, name.as_str());
                append_str(&mut out, "' in module '");
                append_str(&mut out, module.as_str());
                append_str(&mut out, "'");
            },
            ValidationError::GenericArgsOnTypeParam { module, name } => {
                append_str(&mut out, "generic arguments not allowed on type parameter '");
                append_str(&mut out, name.as_str());
                append_str(&mut out, "' in module '");
                append_str(&mut out, module.as_str());
                append_str(&mut out, "'");
            },
            ValidationError::GenericArityMismatch { module, name, expected, actual } => {
                append_str(&mut out, "type '");
                append_str(&mut out, name.as_str());
                append_str(&mut out, "' in module '");
                append_str(&mut out, module.as_str());
                append_str(&mut out, "' expects ");
                append_str(&mut out, usize_to_decimal(*expected).as_str());
                append_str(&mut out, " generic argument(s), got ");
                append_str(&mut out, usize_to_decimal(*actual).as_str());
            },
            ValidationError::DuplicateGenericParam { scope, name } => {
                append_str(&mut out, "duplicate generic parameter '");
                append_str(&mut out, name.as_str());
                append_str(&mut out, "' in ");
                append_str(&mut out, scope.as_str());
            },
            ValidationError::BoundNotInterface { scope, type_param } => {
                append_str(&mut out, "bound on type parameter '");
                append_str(&mut out, type_param.as_str());
                append_str(&mut out, "' in ");
                append_str(&mut out, scope.as_str());
                append_str(&mut out, " must be an interface");
            },
            ValidationError::ExpectedTypeFoundFunction { module, name } => {
                append_str(&mut out, "expected type, found function '");
                append_str(&mut out, name.as_str());
                append_str(&mut out, "' in module '");
                append_str(&mut out, module.as_str());
                append_str(&mut out, "'");
            },
            ValidationError::PointerOutsideExtern { location } => {
                append_str(&mut out, "pointer type '*T' is only allowed in extern declarations (");
                append_str(&mut out, location.as_str());
                append_str(&mut out, ")");
            },
            ValidationError::DuplicateMethod { type_label, method } => {
                append_str(&mut out, "duplicate method '");
                append_str(&mut out, method.as_str());
                append_str(&mut out, "' on type '");
                append_str(&mut out, type_label.as_str());
                append_str(&mut out, "'");
            },
            ValidationError::DuplicateField { type_label, field } => {
                append_str(&mut out, "duplicate field '");
                append_str(&mut out, field.as_str());
                append_str(&mut out, "' on type '");
                append_str(&mut out, type_label.as_str());
                append_str(&mut out, "'");
            },
            ValidationError::DuplicateParam { function, param } => {
                append_str(&mut out, "duplicate parameter '");
                append_str(&mut out, param.as_str());
                append_str(&mut out, "' in function '");
                append_str(&mut out, function.as_str());
                append_str(&mut out, "'");
            },
            ValidationError::InvalidExtendTarget { module } => {
                append_str(&mut out, "invalid extend target in module '");
                append_str(&mut out, module.as_str());
                append_str(&mut out, "'");
            },
            ValidationError::ImplementsNotInterface { type_label } => {
                append_str(&mut out, "type '");
                append_str(&mut out, type_label.as_str());
                append_str(&mut out, "' implements clause references a non-interface");
            },
            ValidationError::MissingInterfaceMember { type_label, interface, member } => {
                append_str(&mut out, "type '");
                append_str(&mut out, type_label.as_str());
                append_str(&mut out, "' is missing member '");
                append_str(&mut out, member.as_str());
                append_str(&mut out, "' required by interface '");
                append_str(&mut out, interface.as_str());
                append_str(&mut out, "'");
            },
            ValidationError::InterfaceMemberMismatch { type_label, interface, member } => {
                append_str(&mut out, "type '");
                append_str(&mut out, type_label.as_str());
                append_str(&mut out, "' member '");
                append_str(&mut out, member.as_str());
                append_str(&mut out, "' does not match interface '");
                append_str(&mut out, interface.as_str());
                append_str(&mut out, "'");
            },
            ValidationError::UnknownVariable { function, name } => {
                append_str(&mut out, "unknown variable '");
                append_str(&mut out, name.as_str());
                append_str(&mut out, "' in function '");
                append_str(&mut out, function.as_str());
                append_str(&mut out, "'");
            },
            ValidationError::TypeUsedAsValue { function, name } => {
                append_str(&mut out, "type '");
                append_str(&mut out, name.as_str());
                append_str(&mut out, "' used as value in function '");
                append_str(&mut out, function.as_str());
                append_str(&mut out, "'");
            },
            ValidationError::VariableNeedsType { function, name } => {
                append_str(&mut out, "variable '");
                append_str(&mut out, name.as_str());
                append_str(&mut out, "' in function '");
                append_str(&mut out, function.as_str());
                append_str(&mut out, "' needs an explicit type annotation");
            },
            ValidationError::TypeMismatch { function, context, expected, actual } => {
                append_str(&mut out, "type mismatch in function '");
                append_str(&mut out, function.as_str());
                append_str(&mut out, "' (");
                append_str(&mut out, context.as_str());
                append_str(&mut out, "): expected '");
                append_str(&mut out, expected.as_str());
                append_str(&mut out, "', found '");
                append_str(&mut out, actual.as_str());
                append_str(&mut out, "'");
            },
            ValidationError::NotCallable { function, context } => {
                append_str(&mut out, "expression is not callable in function '");
                append_str(&mut out, function.as_str());
                append_str(&mut out, "' (");
                append_str(&mut out, context.as_str());
                append_str(&mut out, ")");
            },
            ValidationError::CallArityMismatch { function, callee, expected, actual } => {
                append_str(&mut out, "call to '");
                append_str(&mut out, callee.as_str());
                append_str(&mut out, "' in function '");
                append_str(&mut out, function.as_str());
                append_str(&mut out, "' expects ");
                append_str(&mut out, usize_to_decimal(*expected).as_str());
                append_str(&mut out, " argument(s), got ");
                append_str(&mut out, usize_to_decimal(*actual).as_str());
            },
            ValidationError::UnknownMember { function, on, member } => {
                append_str(&mut out, "unknown member '");
                append_str(&mut out, member.as_str());
                append_str(&mut out, "' on '");
                append_str(&mut out, on.as_str());
                append_str(&mut out, "' in function '");
                append_str(&mut out, function.as_str());
                append_str(&mut out, "'");
            },
            ValidationError::InvalidStructInit { function, context } => {
                append_str(&mut out, "invalid struct initializer in function '");
                append_str(&mut out, function.as_str());
                append_str(&mut out, "' (");
                append_str(&mut out, context.as_str());
                append_str(&mut out, ")");
            },
            ValidationError::MissingFieldInit { function, struct_name, field } => {
                append_str(&mut out, "missing field '");
                append_str(&mut out, field.as_str());
                append_str(&mut out, "' when initializing '");
                append_str(&mut out, struct_name.as_str());
                append_str(&mut out, "' in function '");
                append_str(&mut out, function.as_str());
                append_str(&mut out, "'");
            },
            ValidationError::ExtraFieldInit { function, struct_name, field } => {
                append_str(&mut out, "unknown field '");
                append_str(&mut out, field.as_str());
                append_str(&mut out, "' when initializing '");
                append_str(&mut out, struct_name.as_str());
                append_str(&mut out, "' in function '");
                append_str(&mut out, function.as_str());
                append_str(&mut out, "'");
            },
            ValidationError::InvalidOperator { function, op, operand_ty } => {
                append_str(&mut out, "invalid operator '");
                append_str(&mut out, op.as_str());
                append_str(&mut out, "' for operand of type '");
                append_str(&mut out, operand_ty.as_str());
                append_str(&mut out, "' in function '");
                append_str(&mut out, function.as_str());
                append_str(&mut out, "'");
            },
            ValidationError::BreakOutsideLoop { function } => {
                append_str(&mut out, "'break' used outside of a loop in function '");
                append_str(&mut out, function.as_str());
                append_str(&mut out, "'");
            },
            ValidationError::ContinueOutsideLoop { function } => {
                append_str(&mut out, "'continue' used outside of a loop in function '");
                append_str(&mut out, function.as_str());
                append_str(&mut out, "'");
            },
            ValidationError::LiteralOutOfRange { function, literal } => {
                append_str(&mut out, "literal '");
                append_str(&mut out, literal.as_str());
                append_str(&mut out, "' is out of range in function '");
                append_str(&mut out, function.as_str());
                append_str(&mut out, "'");
            },
            ValidationError::ExternStructImplementsInterface { type_label } => {
                append_str(&mut out, "extern struct '");
                append_str(&mut out, type_label.as_str());
                append_str(&mut out, "' cannot implement interfaces (no GC header for virtual dispatch)");
            },
            ValidationError::ExternStructFieldManagedRef { type_label, field, ty } => {
                append_str(&mut out, "extern struct '");
                append_str(&mut out, type_label.as_str());
                append_str(&mut out, "' field '");
                append_str(&mut out, field.as_str());
                append_str(&mut out, "' has GC-managed type '");
                append_str(&mut out, ty.as_str());
                append_str(&mut out, "' (extern structs cannot hold managed refs — GC can't trace them)");
            },
            ValidationError::ExternStructAsGenericArg { module, name } => {
                append_str(&mut out, "extern struct '");
                append_str(&mut out, name.as_str());
                append_str(&mut out, "' in module '");
                append_str(&mut out, module.as_str());
                append_str(&mut out, "' cannot be used as a generic type argument");
            },
        }
        out
    }
}

// ---------------------------------------------------------------------------
// Rules on resolved types
// ---------------------------------------------------------------------------

/// The first struct with id `id` in `structs`, by whether it is extern.
pub open spec fn struct_is_extern(structs: Seq<HirStruct>, id: u32) -> Option<bool>
    decreases structs.len(),
{
    if structs.len() == 0 {
        None
    } else if structs[0].id.0 == id {
        Some(structs[0].is_extern)
    } else {
        struct_is_extern(structs.subrange(1, structs.len() as int), id)
    }
}

/// Whether a value of type `t` is a reference that the GC manages:
/// strings, interfaces, structs that are not extern, and unions holding one
/// of these. A struct that `structs` does not list counts as unmanaged.
pub open spec fn is_managed_model(t: TypeModel, structs: Seq<HirStruct>) -> bool
    decreases t,
{
    match t {
        TypeModel::Primitive(p) => p is String,
        TypeModel::Struct(id, _) => struct_is_extern(structs, id) == Some(false),
        TypeModel::Interface(_, _) => true,
        TypeModel::Union(parts) => any_managed(parts, structs),
        _ => false,
    }
}

/// Whether some type in `s` is managed.
pub open spec fn any_managed(s: Seq<TypeModel>, structs: Seq<HirStruct>) -> bool
    decreases s,
{
    if s.len() == 0 {
        false
    } else {
        any_managed(s.drop_last(), structs) || is_managed_model(s.last(), structs)
    }
}

fn struct_extern_flag(structs: &Vec<HirStruct>, id: u32) -> (r: Option<bool>)
    ensures
        r == struct_is_extern(structs@, id),
{
    let mut i: usize = 0;
    proof {
        assert(structs@.subrange(0, structs@.len() as int) =~= structs@);
    }
    while i < structs.len()
        invariant
            i <= structs@.len(),
            struct_is_extern(structs@.subrange(i as int, structs@.len() as int), id)
                == struct_is_extern(structs@, id),
        decreases structs@.len() - i,
    {
        let ghost rest = structs@.subrange(i as int, structs@.len() as int);
        proof {
            assert(rest[0] == structs@[i as int]);
            assert(rest.subrange(1, rest.len() as int) =~= structs@.subrange(i + 1, structs@.len() as int));
        }
        if structs[i].id.0 == id {
            return Some(structs[i].is_extern);
        }
        i = i + 1;
    }
    proof {
        assert(structs@.subrange(i as int, structs@.len() as int).len() == 0);
    }
    None
}

/// Whether values of type `ty` are references that the GC manages (and so
/// cannot sit inside a headerless extern struct).
pub fn is_managed_ref_type(ty: &ResolvedType, structs: &Vec<HirStruct>) -> (r: bool)
    ensures
        r == is_managed_model(ty@, structs@),
    decreases ty, 1nat,
{
    match ty {
        ResolvedType::Primitive(p) => match p {
            PrimitiveType::String => true,
            _ => false,
        },
        ResolvedType::Struct(id, _) => match struct_extern_flag(structs, id.0) {
            Some(e) => !e,
            None => false,
        },
        ResolvedType::Interface(_, _) => true,
        ResolvedType::Union(types) => any_managed_type(types, structs),
        ResolvedType::Function(_, _) => false,
        ResolvedType::TypeParam(_) => false,
        ResolvedType::Null => false,
    }
}

fn any_managed_type(v: &Vec<ResolvedType>, structs: &Vec<HirStruct>) -> (r: bool)
    ensures
        r == any_managed(models(v@), structs@),
    decreases v, 0nat,
{
    proof {
        lemma_models(v@);
    }
    let mut i: usize = 0;
    let mut found = false;
    while i < v.len()
        invariant
            i <= v@.len(),
            models(v@).len() == v@.len(),
            forall|k: int| 0 <= k < v@.len() ==> #[trigger] models(v@)[k] == model(v@[k]),
            found == any_managed(models(v@).subrange(0, i as int), structs@),
        decreases v@.len() - i,
    {
        proof {
            assert(decreases_to!(v => v@[i as int]));
            let s = models(v@).subrange(0, i + 1);
            assert(s.drop_last() =~= models(v@).subrange(0, i as int));
            assert(s.last() == model(v@[i as int]));
        }
        let m = is_managed_ref_type(&v[i], structs);
        found = found || m;
        i = i + 1;
    }
    proof {
        assert(models(v@).subrange(0, i as int) =~= models(v@));
    }
    found
}

/// Whether a value of type `actual` can stand where `expected` is wanted:
/// the same type, or one of the members of the union `expected`.
pub open spec fn spec_types_compatible(actual: TypeModel, expected: TypeModel) -> bool {
    actual == expected || (expected matches TypeModel::Union(parts) && parts.contains(actual))
}

pub fn types_compatible(actual: &ResolvedType, expected: &ResolvedType) -> (r: bool)
    ensures
        r == spec_types_compatible(actual@, expected@),
{
    if actual == expected {
        return true;
    }
    if let ResolvedType::Union(types) = expected {
        proof {
            lemma_models(types@);
            assert(expected@ == TypeModel::Union(models(types@)));
        }
        let mut i: usize = 0;
        while i < types.len()
            invariant
                i <= types@.len(),
                expected@ == TypeModel::Union(models(types@)),
                models(types@).len() == types@.len(),
                forall|k: int| 0 <= k < types@.len() ==> #[trigger] models(types@)[k] == model(types@[k]),
                forall|k: int| 0 <= k < i ==> model(#[trigger] types@[k]) != actual@,
            decreases types@.len() - i,
        {
            if types[i] == *actual {
                proof {
                    assert(models(types@)[i as int] == actual@);
                }
                return true;
            }
            i = i + 1;
        }
        proof {
            assert forall|k: int| 0 <= k < models(types@).len() implies models(types@)[k] != actual@ by {
                assert(models(types@)[k] == model(types@[k]));
            }
        }
    }
    false
}

/// The numeric primitives: signed and unsigned integers and floats.
pub open spec fn spec_is_numeric(t: TypeModel) -> bool {
    match t {
        TypeModel::Primitive(p) => !(p is Bool || p is String || p is Char),
        _ => false,
    }
}

pub fn is_numeric(ty: &ResolvedType) -> (r: bool)
    ensures
        r == spec_is_numeric(ty@),
{
    match ty {
        ResolvedType::Primitive(p) => match p {
            PrimitiveType::Bool | PrimitiveType::String | PrimitiveType::Char => false,
            _ => true,
        },
        _ => false,
    }
}

// ---------------------------------------------------------------------------
// Types as text, for messages
// ---------------------------------------------------------------------------

/// The name of a primitive in messages.
pub open spec fn primitive_name(p: PrimitiveType) -> Seq<char> {
    match p {
        PrimitiveType::Int8 => "int8"@,
        PrimitiveType::Int16 => "int16"@,
        PrimitiveType::Int32 => "int32"@,
        PrimitiveType::Int64 => "int64"@,
        PrimitiveType::Uint8 => "uint8"@,
        PrimitiveType::Uint16 => "uint16"@,
        PrimitiveType::Uint32 => "uint32"@,
        PrimitiveType::Uint64 => "uint64"@,
        PrimitiveType::Float32 => "float32"@,
        PrimitiveType::Float64 => "float64"@,
        PrimitiveType::Bool => "bool"@,
        PrimitiveType::String => "string"@,
        PrimitiveType::Char => "char"@,
    }
}

/// A type as text: primitives by name, structs and interfaces by kind and
/// id with their arguments, unions joined by ` | `, functions as
/// `(params) -> ret`, type parameters as `'tp` and their id.
pub open spec fn type_text(t: TypeModel) -> Seq<char>
    decreases t,
{
    match t {
        TypeModel::Primitive(p) => primitive_name(p),
        TypeModel::Struct(id, args) => if args.len() == 0 {
            "struct"@ + "#"@ + decimal(id as nat)
        } else {
            "struct"@ + "#"@ + decimal(id as nat) + "<"@ + types_text(args, ", "@) + ">"@
        },
        TypeModel::Interface(id, args) => if args.len() == 0 {
            "interface"@ + "#"@ + decimal(id as nat)
        } else {
            "interface"@ + "#"@ + decimal(id as nat) + "<"@ + types_text(args, ", "@) + ">"@
        },
        TypeModel::Union(parts) => types_text(parts, " | "@),
        TypeModel::Function(params, ret) => "("@ + types_text(params, ", "@) + ") -> "@ + type_text(*ret),
        TypeModel::TypeParam(id) => "'tp"@ + decimal(id as nat),
        TypeModel::Null => "null"@,
    }
}

/// The texts of the types in `s`, joined by `sep`.
pub open spec fn types_text(s: Seq<TypeModel>, sep: Seq<char>) -> Seq<char>
    decreases s,
{
    if s.len() == 0 {
        Seq::empty()
    } else if s.len() == 1 {
        type_text(s[0])
    } else {
        types_text(s.drop_last(), sep) + sep + type_text(s.last())
    }
}

fn primitive_text(p: &PrimitiveType) -> (r: &'static str)
    ensures
        r@ == primitive_name(*p),
{
    match p {
        PrimitiveType::Int8 => "int8",
        PrimitiveType::Int16 => "int16",
        PrimitiveType::Int32 => "int32",
        PrimitiveType::Int64 => "int64",
        PrimitiveType::Uint8 => "uint8",
        PrimitiveType::Uint16 => "uint16",
        PrimitiveType::Uint32 => "uint32",
        PrimitiveType::Uint64 => "uint64",
        PrimitiveType::Float32 => "float32",
        PrimitiveType::Float64 => "float64",
        PrimitiveType::Bool => "bool",
        PrimitiveType::String => "string",
        PrimitiveType::Char => "char",
    }
}

/// A type as text, for messages.
pub fn format_type(ty: &ResolvedType) -> (r: String)
    ensures
        r@ == type_text(ty@),
    decreases ty, 2nat,
{
    match ty {
        ResolvedType::Primitive(p) => {
            let mut out = String::new();
            append_str(&mut out, primitive_text(p));
            assert(out@ =~= type_text(ty@));
            out
        },
        ResolvedType::Struct(id, args) => {
            proof {
                lemma_models(args@);
            }
            format_named("struct", id.0, args)
        },
        ResolvedType::Interface(id, args) => {
            proof {
                lemma_models(args@);
            }
            format_named("interface", id.0, args)
        },
        ResolvedType::Union(types) => join_types(types, " | "),
        ResolvedType::Function(params, ret) => {
            let mut out = String::new();
            append_str(&mut out, "(");
            let ps = join_types(params, ", ");
            append_str(&mut out, ps.as_str());
            append_str(&mut out, ") -> ");
            let rs = format_type(ret);
            append_str(&mut out, rs.as_str());
            assert(out@ =~= type_text(ty@));
            out
        },
        ResolvedType::TypeParam(id) => {
            let mut out = String::new();
            append_str(&mut out, "'tp");
            let d = usize_to_decimal(id.0 as usize);
            append_str(&mut out, d.as_str());
            assert(out@ =~= type_text(ty@));
            out
        },
        ResolvedType::Null => {
            let mut out = String::new();
            append_str(&mut out, "null");
            assert(out@ =~= type_text(ty@));
            out
        },
    }
}

/// `kind#id`, with the arguments in angle brackets when there are some.
pub fn format_named(kind: &str, id: u32, args: &Vec<ResolvedType>) -> (r: String)
    ensures
        r@ == if args@.len() == 0 {
            kind@ + "#"@ + decimal(id as nat)
        } else {
            kind@ + "#"@ + decimal(id as nat) + "<"@ + types_text(models(args@), ", "@) + ">"@
        },
    decreases args, 1nat,
{
    proof {
        lemma_models(args@);
    }
    let mut out = String::new();
    append_str(&mut out, kind);
    append_str(&mut out, "#");
    let d = usize_to_decimal(id as usize);
    append_str(&mut out, d.as_str());
    if args.len() > 0 {
        append_str(&mut out, "<");
        let a = join_types(args, ", ");
        append_str(&mut out, a.as_str());
        append_str(&mut out, ">");
    }
    out
}

/// The texts of the types, joined by `sep`.
fn join_types(v: &Vec<ResolvedType>, sep: &str) -> (r: String)
    ensures
        r@ == types_text(models(v@), sep@),
    decreases v, 0nat,
{
    proof {
        lemma_models(v@);
    }
    let mut out = String::new();
    let mut i: usize = 0;
    while i < v.len()
        invariant
            i <= v@.len(),
            models(v@).len() == v@.len(),
            forall|k: int| 0 <= k < v@.len() ==> #[trigger] models(v@)[k] == model(v@[k]),
            out@ == types_text(models(v@).subrange(0, i as int), sep@),
        decreases v@.len() - i,
    {
        proof {
            assert(decreases_to!(v => v@[i as int]));
        }
        if i > 0 {
            append_str(&mut out, sep);
        }
        let t = format_type(&v[i]);
        append_str(&mut out, t.as_str());
        proof {
            let s = models(v@).subrange(0, i + 1);
            assert(s.drop_last() =~= models(v@).subrange(0, i as int));
            assert(s.last() == model(v@[i as int]));
            if i == 0 {
                assert(s.len() == 1);
                assert(s[0] == model(v@[0]));
                assert(out@ =~= type_text(model(v@[0])));
            }
        }
        i = i + 1;
    }
    proof {
        assert(models(v@).subrange(0, i as int) =~= models(v@));
    }
    out
}

// ---------------------------------------------------------------------------
// Substitution and signatures
// ---------------------------------------------------------------------------

/// `ty` with every type parameter that `subst` binds replaced.
pub fn substitute(ty: &ResolvedType, subst: &Subst) -> (r: ResolvedType)
    ensures
        r@ == subst_model(subst.lookup(), ty@),
{
    subst.apply(ty)
}

/// The extend target arguments are exactly one type parameter per struct
/// parameter, no parameter twice.
pub open spec fn is_universal_target(args: Seq<TypeModel>, n: int) -> bool {
    &&& args.len() == n
    &&& forall|i: int| 0 <= i < args.len() ==> #[trigger] args[i] is TypeParam
    &&& forall|i: int, j: int|
        0 <= i < j < args.len() ==> #[trigger] args[i]->TypeParam_0 != #[trigger] args[j]->TypeParam_0
}

/// For `extend<..> S<T1, ..>` whose target arguments are distinct type
/// parameters, one per parameter of `S`: the substitution that renames the
/// extend's parameter at each position to the struct's parameter there.
/// `None` when the target arguments are anything else.
pub fn universal_extend_mapping(target_args: &[ResolvedType], struct_type_params: &[TypeParamId]) -> (r:
    Option<Subst>)
    ensures
        r is Some <==> is_universal_target(models(target_args@), struct_type_params@.len() as int),
        r matches Some(m) ==> {
            &&& forall|i: int|
                0 <= i < target_args@.len() ==> m.binding(
                    #[trigger] models(target_args@)[i]->TypeParam_0,
                ) == Some(TypeModel::TypeParam(struct_type_params@[i].0))
            &&& forall|id: u32|
                (forall|i: int| 0 <= i < target_args@.len() ==> #[trigger] models(target_args@)[i]
                    != TypeModel::TypeParam(id)) ==> #[trigger] m.binding(id) is None
        },
{
    proof {
        lemma_models(target_args@);
    }
    let ghost ms = models(target_args@);
    if target_args.len() != struct_type_params.len() {
        return None;
    }
    let mut seen: Vec<TypeParamId> = Vec::new();
    let mut targets: Vec<ResolvedType> = Vec::new();
    let mut i: usize = 0;
    while i < target_args.len()
        invariant
            i <= target_args@.len(),
            target_args@.len() == struct_type_params@.len(),
            ms == models(target_args@),
            ms.len() == target_args@.len(),
            forall|k: int| 0 <= k < target_args@.len() ==> #[trigger] ms[k] == model(target_args@[k]),
            seen@.len() == i,
            targets@.len() == i,
            forall|k: int| 0 <= k < i ==> #[trigger] ms[k] == TypeModel::TypeParam(seen@[k].0),
            forall|k: int| 0 <= k < i ==> model(#[trigger] targets@[k]) == TypeModel::TypeParam(
                struct_type_params@[k].0,
            ),
            forall|k: int, l: int| 0 <= k < l < i ==> #[trigger] seen@[k].0 != #[trigger] seen@[l].0,
        decreases target_args@.len() - i,
    {
        match &target_args[i] {
            ResolvedType::TypeParam(p) => {
                proof {
                    assert(ms[i as int] == model(target_args@[i as int]));
                }
                let mut j: usize = 0;
                while j < seen.len()
                    invariant
                        j <= seen@.len(),
                        seen@.len() == i,
                        i < target_args@.len(),
                        ms == models(target_args@),
                        ms.len() == target_args@.len(),
                        ms[i as int] == TypeModel::TypeParam(p.0),
                        forall|k: int| 0 <= k < i ==> #[trigger] ms[k] == TypeModel::TypeParam(seen@[k].0),
                        forall|k: int| 0 <= k < j ==> (#[trigger] seen@[k]).0 != p.0,
                    decreases seen@.len() - j,
                {
                    if seen[j].0 == p.0 {
                        proof {
                            assert(ms[j as int] == TypeModel::TypeParam(seen@[j as int].0));
                            assert(ms[j as int]->TypeParam_0 == ms[i as int]->TypeParam_0);
                            assert(!is_universal_target(ms, struct_type_params@.len() as int));
                        }
                        return None;
                    }
                    j = j + 1;
                }
                seen.push(*p);
                targets.push(ResolvedType::TypeParam(struct_type_params[i]));
            },
            _ => {
                proof {
                    assert(!(ms[i as int] is TypeParam));
                }
                return None;
            },
        }
        i = i + 1;
    }
    let ghost seen_v = seen@;
    let ghost targets_m = models(targets@);
    proof {
        lemma_models(targets@);
        assert forall|k: int, l: int| 0 <= k < l < ms.len() implies #[trigger] ms[k]->TypeParam_0
            != #[trigger] ms[l]->TypeParam_0 by {
            assert(ms[k] == TypeModel::TypeParam(seen_v[k].0));
            assert(ms[l] == TypeModel::TypeParam(seen_v[l].0));
        }
    }
    let m = Subst::new(seen, targets);
    proof {
        assert forall|i: int| 0 <= i < ms.len() implies m.binding(#[trigger] ms[i]->TypeParam_0)
            == Some(TypeModel::TypeParam(struct_type_params@[i].0)) by {
            assert(ms[i] == TypeModel::TypeParam(seen_v[i].0));
            lemma_bound_distinct(seen_v, targets_m, ms.len() as int, i);
        }
        assert forall|id: u32|
            (forall|i: int| 0 <= i < ms.len() ==> #[trigger] ms[i] != TypeModel::TypeParam(id)) implies
            #[trigger] m.binding(id) is None by {
            assert forall|k: int| 0 <= k < ms.len() implies #[trigger] seen_v[k].0 != id by {
                assert(ms[k] == TypeModel::TypeParam(seen_v[k].0));
            }
            lemma_bound_absent(seen_v, targets_m, ms.len() as int, id);
        }
    }
    Some(m)
}

/// Whether a method of a type provides an interface method: the same
/// receiver, as many parameters and type parameters, and the same
/// parameter and return types once the interface's type parameters are
/// read as the provider's (position by position) and each side's own
/// substitution is applied.
pub open spec fn spec_signatures_match(
    iface_method: HirFunction,
    provider: HirFunction,
    iface_subst: Subst,
    provider_subst: Subst,
) -> bool {
    let method_lookup = rename_params(
        iface_subst.lookup(),
        iface_method.type_params@,
        provider.type_params@,
        iface_method.type_params@.len() as int,
    );
    &&& iface_method.has_self == provider.has_self
    &&& iface_method.params@.len() == provider.params@.len()
    &&& iface_method.type_params@.len() == provider.type_params@.len()
    &&& forall|k: int|
        0 <= k < iface_method.params@.len() ==> subst_model(method_lookup, (#[trigger] iface_method.params@[k]).ty@)
            == subst_model(provider_subst.lookup(), provider.params@[k].ty@)
            && iface_method.params@[k].is_pointer == provider.params@[k].is_pointer
    &&& subst_model(method_lookup, iface_method.return_type@) == subst_model(
        provider_subst.lookup(),
        provider.return_type@,
    )
}

pub fn signatures_match(
    iface_method: &HirFunction,
    provider: &HirFunction,
    iface_subst: &Subst,
    provider_subst: &Subst,
) -> (r: bool)
    ensures
        r == spec_signatures_match(*iface_method, *provider, *iface_subst, *provider_subst),
{
    if iface_method.has_self != provider.has_self {
        return false;
    }
    if iface_method.params.len() != provider.params.len() {
        return false;
    }
    if iface_method.type_params.len() != provider.type_params.len() {
        return false;
    }
    let method_subst = iface_subst.renamed(&iface_method.type_params, &provider.type_params);
    let ghost method_lookup = rename_params(
        iface_subst.lookup(),
        iface_method.type_params@,
        provider.type_params@,
        iface_method.type_params@.len() as int,
    );
    proof {
        assert(method_subst.lookup() =~= method_lookup);
    }
    let mut i: usize = 0;
    while i < iface_method.params.len()
        invariant
            i <= iface_method.params@.len(),
            iface_method.params@.len() == provider.params@.len(),
            method_subst.lookup() == method_lookup,
            method_lookup == rename_params(
                iface_subst.lookup(),
                iface_method.type_params@,
                provider.type_params@,
                iface_method.type_params@.len() as int,
            ),
            iface_method.has_self == provider.has_self,
            iface_method.type_params@.len() == provider.type_params@.len(),
            forall|k: int|
                0 <= k < i ==> subst_model(method_lookup, (#[trigger] iface_method.params@[k]).ty@)
                    == subst_model(provider_subst.lookup(), provider.params@[k].ty@)
                    && iface_method.params@[k].is_pointer == provider.params@[k].is_pointer,
        decreases iface_method.params@.len() - i,
    {
        let expected_ty = substitute(&iface_method.params[i].ty, &method_subst);
        let provided_ty = substitute(&provider.params[i].ty, provider_subst);
        if expected_ty != provided_ty {
            proof {
                let k = i as int;
                assert(subst_model(method_lookup, iface_method.params@[k].ty@) != subst_model(
                    provider_subst.lookup(),
                    provider.params@[k].ty@,
                ));
            }
            return false;
        }
        if iface_method.params[i].is_pointer != provider.params[i].is_pointer {
            proof {
                let k = i as int;
                assert(iface_method.params@[k].is_pointer != provider.params@[k].is_pointer);
            }
            return false;
        }
        i = i + 1;
    }
    let expected_ret = substitute(&iface_method.return_type, &method_subst);
    let provided_ret = substitute(&provider.return_type, provider_subst);
    expected_ret == provided_ret
}

/// With distinct parameters, the binding of parameter `i` is argument `i`.
proof fn lemma_bound_distinct(params: Seq<TypeParamId>, args: Seq<TypeModel>, n: int, i: int)
    requires
        0 <= i < n <= params.len(),
        n <= args.len(),
        forall|k: int, l: int| 0 <= k < l < n ==> #[trigger] params[k].0 != #[trigger] params[l].0,
    ensures
        crate::lower::subst::bound_upto(params, args, n, params[i].0) == Some(args[i]),
    decreases n,
{
    if n - 1 != i {
        assert(params[n - 1].0 != params[i].0);
        lemma_bound_distinct(params, args, n - 1, i);
    }
}

/// A parameter that none of the first `n` pairs names is unbound.
proof fn lemma_bound_absent(params: Seq<TypeParamId>, args: Seq<TypeModel>, n: int, id: u32)
    requires
        0 <= n <= params.len(),
        forall|k: int| 0 <= k < n ==> #[trigger] params[k].0 != id,
    ensures
        crate::lower::subst::bound_upto(params, args, n, id) is None,
    decreases n,
{
    if n > 0 {
        lemma_bound_absent(params, args, n - 1, id);
    }
}

// ---------------------------------------------------------------------------
// The validator: registration of modules and imports
// ---------------------------------------------------------------------------

/// A named import whose symbols are resolved once every module's names are
/// registered: the importing and the source module, and where the import
/// stands (the module's index in the list validated, and the item's index).
pub struct PendingNamedImport {
    pub importer: ModuleId,
    pub source: ModuleId,
    pub module_index: usize,
    pub item_index: usize,
}

/// The model of the errors that registering modules and imports reports.
pub enum ModuleErrM {
    Duplicate(Seq<char>),
    SelfImport(Seq<char>),
    UnknownModule(Seq<char>, Seq<char>),
    /// A name declared twice in a module: the module, the name.
    DuplicateName(Seq<char>, Seq<char>),
    /// A named import of a symbol the source module does not declare: the
    /// importing module, the source module, the symbol.
    UnknownSymbol(Seq<char>, Seq<char>, Seq<char>),
    /// A name imported twice: the module, the local name.
    DuplicateImport(Seq<char>, Seq<char>),
    UnknownType(Seq<char>, Seq<char>),
    GenericArgsOnTypeParam(Seq<char>, Seq<char>),
    /// The module, the name, the arity expected and the one given.
    GenericArityMismatch(Seq<char>, Seq<char>, nat, nat),
    ExpectedTypeFoundFunction(Seq<char>, Seq<char>),
    PointerOutsideExtern(Seq<char>),
    ExternStructAsGenericArg(Seq<char>, Seq<char>),
    /// A generic parameter declared twice: the scope, the name.
    DuplicateGenericParam(Seq<char>, Seq<char>),
    ImplementsNotInterface(Seq<char>),
    /// A bound that is no interface: the scope, the type parameter.
    BoundNotInterface(Seq<char>, Seq<char>),
    /// A parameter declared twice: the function, the parameter.
    DuplicateParam(Seq<char>, Seq<char>),
    /// A field declared twice: the type, the field.
    DuplicateField(Seq<char>, Seq<char>),
    Other,
}

pub open spec fn module_err_m(e: ValidationError) -> ModuleErrM {
    match e {
        ValidationError::DuplicateModule { name } => ModuleErrM::Duplicate(name@),
        ValidationError::SelfImport { module } => ModuleErrM::SelfImport(module@),
        ValidationError::UnknownImportModule { in_module, target } => ModuleErrM::UnknownModule(
            in_module@,
            target@,
        ),
        ValidationError::DuplicateName { module, name } => ModuleErrM::DuplicateName(module@, name@),
        ValidationError::UnknownImportSymbol { in_module, from_module, symbol } => ModuleErrM::UnknownSymbol(
            in_module@,
            from_module@,
            symbol@,
        ),
        ValidationError::DuplicateImport { in_module, local_name } => ModuleErrM::DuplicateImport(
            in_module@,
            local_name@,
        ),
        ValidationError::UnknownType { module, name } => ModuleErrM::UnknownType(module@, name@),
        ValidationError::GenericArgsOnTypeParam { module, name } => ModuleErrM::GenericArgsOnTypeParam(module@, name@),
        ValidationError::GenericArityMismatch { module, name, expected, actual } => ModuleErrM::GenericArityMismatch(
            module@,
            name@,
            expected as nat,
            actual as nat,
        ),
        ValidationError::ExpectedTypeFoundFunction { module, name } => ModuleErrM::ExpectedTypeFoundFunction(
            module@,
            name@,
        ),
        ValidationError::PointerOutsideExtern { location } => ModuleErrM::PointerOutsideExtern(location@),
        ValidationError::ExternStructAsGenericArg { module, name } => ModuleErrM::ExternStructAsGenericArg(
            module@,
            name@,
        ),
        ValidationError::DuplicateGenericParam { scope, name } => ModuleErrM::DuplicateGenericParam(scope@, name@),
        ValidationError::ImplementsNotInterface { type_label } => ModuleErrM::ImplementsNotInterface(type_label@),
        ValidationError::BoundNotInterface { scope, type_param } => ModuleErrM::BoundNotInterface(scope@, type_param@),
        ValidationError::DuplicateParam { function, param } => ModuleErrM::DuplicateParam(function@, param@),
        ValidationError::DuplicateField { type_label, field } => ModuleErrM::DuplicateField(type_label@, field@),
        _ => ModuleErrM::Other,
    }
}

pub open spec fn module_errs_m(s: Seq<ValidationError>) -> Seq<ModuleErrM> {
    s.map_values(|e: ValidationError| module_err_m(e))
}

/// The first index at which `x` occurs in `s`, or -1.
pub open spec fn name_index(s: Seq<Seq<char>>, x: Seq<char>) -> int
    decreases s.len(),
{
    if s.len() == 0 {
        -1
    } else if name_index(s.drop_last(), x) >= 0 {
        name_index(s.drop_last(), x)
    } else if s.last() == x {
        s.len() - 1
    } else {
        -1
    }
}

/// Registering module names in order: a name already registered is a
/// duplicate (an error), any other gets the next id.
pub open spec fn register_names(names: Seq<Seq<char>>, errs: Seq<ModuleErrM>, ms: Seq<Seq<char>>) -> (
    Seq<Seq<char>>,
    Seq<ModuleErrM>,
)
    decreases ms.len(),
{
    if ms.len() == 0 {
        (names, errs)
    } else {
        let (n, e) = register_names(names, errs, ms.drop_last());
        if name_index(n, ms.last()) >= 0 {
            (n, e.push(ModuleErrM::Duplicate(ms.last())))
        } else {
            (n.push(ms.last()), e)
        }
    }
}

/// What an item asks to import: nothing, or the target module's name and
/// whether it takes every name (a glob).
pub open spec fn import_request(i: Item) -> Option<(Seq<char>, bool)> {
    match i.kind {
        ItemKind::Import(d) => Some((d.module@, d.symbols is Glob)),
        _ => None,
    }
}

/// What import resolution has gathered: the errors, the glob imports of
/// each registered module (source ids), and the pending named imports as
/// (importer, source, module index, item index).
pub struct ImportsM {
    pub errs: Seq<ModuleErrM>,
    pub globs: Seq<Seq<nat>>,
    pub pending: Seq<(nat, nat, nat, nat)>,
}

/// One import request of the module at index `mi`, named `mname`, whose
/// id is `importer`, at item `ii`: importing itself is an error, importing
/// an unregistered module is an error, a glob records the source, and a
/// named import waits for the next phase.
pub open spec fn resolve_import(
    st: ImportsM,
    names: Seq<Seq<char>>,
    importer: nat,
    mi: nat,
    mname: Seq<char>,
    ii: nat,
    req: Option<(Seq<char>, bool)>,
) -> ImportsM {
    match req {
        None => st,
        Some((target, glob)) => if target == mname {
            ImportsM { errs: st.errs.push(ModuleErrM::SelfImport(mname)), ..st }
        } else if name_index(names, target) < 0 {
            ImportsM { errs: st.errs.push(ModuleErrM::UnknownModule(mname, target)), ..st }
        } else if glob {
            ImportsM {
                globs: st.globs.update(importer as int, st.globs[importer as int].push(name_index(names, target) as nat)),
                ..st
            }
        } else {
            ImportsM {
                pending: st.pending.push((importer, name_index(names, target) as nat, mi, ii)),
                ..st
            }
        },
    }
}

/// The import requests of one module, in item order.
pub open spec fn resolve_module_imports(
    st: ImportsM,
    names: Seq<Seq<char>>,
    mi: nat,
    mname: Seq<char>,
    reqs: Seq<Option<(Seq<char>, bool)>>,
) -> ImportsM
    decreases reqs.len(),
{
    if reqs.len() == 0 {
        st
    } else {
        resolve_import(
            resolve_module_imports(st, names, mi, mname, reqs.drop_last()),
            names,
            name_index(names, mname) as nat,
            mi,
            mname,
            (reqs.len() - 1) as nat,
            reqs.last(),
        )
    }
}

/// The model of a module as import resolution reads it: its name and the
/// import request of each item.
pub open spec fn module_requests(m: Module) -> (Seq<char>, Seq<Option<(Seq<char>, bool)>>) {
    (m.name@, m.program.items@.map_values(|i: Item| import_request(i)))
}

/// The import requests of every module, in order.
pub open spec fn resolve_all_imports(st: ImportsM, names: Seq<Seq<char>>, ms: Seq<Module>) -> ImportsM
    decreases ms.len(),
{
    if ms.len() == 0 {
        st
    } else {
        let (mname, reqs) = module_requests(ms.last());
        resolve_module_imports(
            resolve_all_imports(st, names, ms.drop_last()),
            names,
            (ms.len() - 1) as nat,
            mname,
            reqs,
        )
    }
}

/// The model of a validator's registry: module names by id, the errors so
/// far, each module's glob imports, and the pending named imports.
pub struct RegistryM {
    pub names: Seq<Seq<char>>,
    pub errs: Seq<ModuleErrM>,
    pub globs: Seq<Seq<nat>>,
    pub pending: Seq<(nat, nat, nat, nat)>,
}

/// The glob sources among a module's imports.
pub open spec fn glob_sources(imports: Seq<HirImport>) -> Seq<nat>
    decreases imports.len(),
{
    if imports.len() == 0 {
        Seq::empty()
    } else {
        match imports.last() {
            HirImport::Glob(m) => glob_sources(imports.drop_last()).push(m.0 as nat),
            _ => glob_sources(imports.drop_last()),
        }
    }
}

/// Registering modules and resolving their imports, from registry `r`:
/// first every name (a repeated one is reported), then each module's
/// imports in order; a repeated module's imports count for the module
/// first registered under its name.
pub open spec fn spec_register_modules(r: RegistryM, ms: Seq<Module>) -> RegistryM {
    let (names, errs) = register_names(r.names, r.errs, ms.map_values(|m: Module| m.name@));
    let globs0 = r.globs + Seq::new((names.len() - r.names.len()) as nat, |_i: int| Seq::<nat>::empty());
    let st = resolve_all_imports(ImportsM { errs, globs: globs0, pending: r.pending }, names, ms);
    RegistryM { names, errs: st.errs, globs: st.globs, pending: st.pending }
}

/// Checks the modules of a program and turns them into HIR.
pub struct Validator {
    modules: Vec<Module>,
    hir: Hir,
    errors: Vec<ValidationError>,
    /// The name of each registered module; its index is its id.
    module_names: Vec<String>,
    pending_named_imports: Vec<PendingNamedImport>,
    /// The scope of each module whose names are registered, by module id;
    /// a later entry for the same id replaces an earlier one.
    module_scopes: Vec<(ModuleId, ModuleScope)>,
    /// Type aliases: module, name, and where the declaration stands (the
    /// module's index in the list validated, the item's index).
    module_aliases: Vec<(ModuleId, String, usize, usize)>,
    /// Functions whose bodies are checked later: the id, and where the
    /// declaration stands.
    pending_function_bodies: Vec<(FnId, usize, usize)>,
    next_type_id: u32,
    next_fn_id: u32,
    next_tp_id: u32,
}

/// What a name in a module's scope stands for.
pub enum ScopeEntry {
    Type(TypeId),
    Function(FnId),
    /// A type alias, declared in module `source` under `name`.
    Alias { source: ModuleId, name: String },
}

/// The names a module can resolve.
pub struct ModuleScope {
    /// Names declared in the module, and named imports.
    pub direct: Vec<(String, ScopeEntry)>,
    /// Modules imported by glob, consulted when `direct` has no entry.
    pub globs: Vec<ModuleId>,
    /// The names in `direct` that came from a named import.
    pub imported_names: Vec<String>,
}

impl Validator {
    pub closed spec fn view(&self) -> RegistryM {
        RegistryM {
            names: self.module_names@.map_values(|n: String| n@),
            errs: module_errs_m(self.errors@),
            globs: self.hir.modules@.map_values(|m: HirModule| glob_sources(m.imports@)),
            pending: self.pending_named_imports@.map_values(
                |p: PendingNamedImport| (p.importer.0 as nat, p.source.0 as nat, p.module_index as nat, p.item_index as nat),
            ),
        }
    }

    /// The modules to validate.
    pub closed spec fn spec_modules(&self) -> Seq<Module> {
        self.modules@
    }

    /// Each registered module has its HIR module, whose id is its index and
    /// whose name is its name; ids fit in `u32`.
    pub closed spec fn wf(&self) -> bool {
        &&& self.hir.modules@.len() == self.module_names@.len()
        &&& self.module_names@.len() <= u32::MAX
        &&& forall|i: int|
            0 <= i < self.hir.modules@.len() ==> (#[trigger] self.hir.modules@[i]).id.0 == i
                && self.hir.modules@[i].name@ == self.module_names@[i]@
        &&& forall|k: int|
            0 <= k < self.pending_named_imports@.len() ==> (#[trigger] self.pending_named_imports@[k]).importer.0
                < self.module_names@.len() && self.pending_named_imports@[k].source.0 < self.module_names@.len()
    }

    /// A validator for `modules`, with nothing registered yet.
    pub fn new(modules: Vec<Module>) -> (r: Self)
        ensures
            r.wf(),
            r.spec_modules() == modules@,
            r@ == (RegistryM {
                names: Seq::empty(),
                errs: Seq::empty(),
                globs: Seq::empty(),
                pending: Seq::empty(),
            }),
    {
        let r = Validator {
            modules,
            hir: Hir {
                modules: Vec::new(),
                structs: Vec::new(),
                interfaces: Vec::new(),
                functions: Vec::new(),
                type_params: Vec::new(),
            },
            errors: Vec::new(),
            module_names: Vec::new(),
            pending_named_imports: Vec::new(),
            module_scopes: Vec::new(),
            module_aliases: Vec::new(),
            pending_function_bodies: Vec::new(),
            next_type_id: 0,
            next_fn_id: 0,
            next_tp_id: 0,
        };
        assert(r@.names =~= Seq::<Seq<char>>::empty());
        assert(r@.errs =~= Seq::<ModuleErrM>::empty());
        assert(r@.globs =~= Seq::<Seq<nat>>::empty());
        assert(r@.pending =~= Seq::<(nat, nat, nat, nat)>::empty());
        r
    }

    /// The id of the module named `name`, if one is registered.
    fn find_module(&self, name: &String) -> (r: Option<u32>)
        requires
            self.module_names@.len() <= u32::MAX,
        ensures
            match r {
                Some(k) => k as int == name_index(self@.names, name@),
                None => name_index(self@.names, name@) < 0,
            },
    {
        let ghost names = self@.names;
        let mut k: usize = 0;
        while k < self.module_names.len()
            invariant
                k <= self.module_names@.len(),
                self.module_names@.len() <= u32::MAX,
                names == self.module_names@.map_values(|n: String| n@),
                name_index(names.take(k as int), name@) < 0,
            decreases self.module_names@.len() - k,
        {
            assert(names.take(k as int + 1).drop_last() =~= names.take(k as int));
            if self.module_names[k] == *name {
                proof {
                    lemma_name_index_prefix(names, name@, k as int + 1);
                }
                return Some(k as u32);
            }
            k = k + 1;
        }
        assert(names.take(k as int) =~= names);
        None
    }
}

/// The first index in a prefix is the first index in the whole, once found.
proof fn lemma_name_index_prefix(s: Seq<Seq<char>>, x: Seq<char>, n: int)
    requires
        0 <= n <= s.len(),
        name_index(s.take(n), x) >= 0,
    ensures
        name_index(s, x) == name_index(s.take(n), x),
    decreases s.len() - n,
{
    if n < s.len() {
        assert(s.take(n + 1).drop_last() =~= s.take(n));
        lemma_name_index_prefix(s, x, n + 1);
    } else {
        assert(s.take(n) =~= s);
    }
}

/// The import-resolution part of a registry.
pub open spec fn imports_of(r: RegistryM) -> ImportsM {
    ImportsM { errs: r.errs, globs: r.globs, pending: r.pending }
}

proof fn lemma_name_index_push(s: Seq<Seq<char>>, x: Seq<char>, y: Seq<char>)
    ensures
        name_index(s, x) >= 0 ==> name_index(s.push(y), x) == name_index(s, x),
        name_index(s, x) < 0 ==> name_index(s.push(y), x) == (if y == x { s.len() as int } else { -1 }),
        -1 <= name_index(s, x) < s.len(),
        name_index(s, x) >= 0 ==> s[name_index(s, x)] == x,
    decreases s.len(),
{
    assert(s.push(y).drop_last() =~= s);
    if s.len() > 0 {
        lemma_name_index_push(s.drop_last(), x, s.last());
        assert(s.drop_last().push(s.last()) =~= s);
    }
}

proof fn lemma_registered(n0: Seq<Seq<char>>, e0: Seq<ModuleErrM>, ms: Seq<Seq<char>>)
    ensures
        forall|k: int| 0 <= k < ms.len() ==> name_index(register_names(n0, e0, ms).0, #[trigger] ms[k]) >= 0,
        forall|x: Seq<char>|
            name_index(n0, x) >= 0 ==> name_index(register_names(n0, e0, ms).0, x) == name_index(n0, x),
        register_names(n0, e0, ms).0.len() >= n0.len(),
        register_names(n0, e0, ms).0.len() <= n0.len() + ms.len(),
        register_names(n0, e0, ms).0.subrange(0, n0.len() as int) == n0,
    decreases ms.len(),
{
    if ms.len() > 0 {
        let p = ms.drop_last();
        lemma_registered(n0, e0, p);
        let (n, e) = register_names(n0, e0, p);
        assert forall|x: Seq<char>| name_index(n, x) >= 0 implies #[trigger] name_index(n.push(ms.last()), x)
            == name_index(n, x) by {
            lemma_name_index_push(n, x, ms.last());
        }
        lemma_name_index_push(n, ms.last(), ms.last());
        assert forall|k: int| 0 <= k < ms.len() implies name_index(register_names(n0, e0, ms).0, #[trigger] ms[k])
            >= 0 by {
            if k < ms.len() - 1 {
                assert(ms[k] == p[k]);
                lemma_name_index_push(n, ms[k], ms.last());
            }
        }
        assert(n.push(ms.last()).subrange(0, n0.len() as int) =~= n.subrange(0, n0.len() as int));
    }
}

impl Validator {
    /// Phase one of validation: registers every module under the next id
    /// (a repeated name is reported and keeps the first id), then resolves
    /// each module's imports: importing oneself or an unregistered module is
    /// reported, a glob import is recorded on the importing module, and a
    /// named import waits for the names of the source module.
    #[verifier::rlimit(60)]
    pub fn register_modules_and_imports(&mut self, modules: &[Module])
        requires
            old(self).wf(),
            old(self)@.names.len() + modules@.len() <= u32::MAX,
            old(self)@.globs.len() == old(self)@.names.len(),
        ensures
            final(self).wf(),
            final(self).spec_modules() == old(self).spec_modules(),
            final(self)@ == spec_register_modules(old(self)@, modules@),
    {
        let ghost r0 = self@;
        let ghost ns = modules@.map_values(|m: Module| m.name@);
        proof {
            lemma_registered(r0.names, r0.errs, ns);
        }
        let mut i: usize = 0;
        while i < modules.len()
            invariant
                self.wf(),
                self.spec_modules() == old(self).spec_modules(),
                r0 == old(self)@,
                ns == modules@.map_values(|m: Module| m.name@),
                r0.names.len() + modules@.len() <= u32::MAX,
                i <= modules@.len(),
                (self@.names, self@.errs) == register_names(r0.names, r0.errs, ns.take(i as int)),
                self@.names.len() <= r0.names.len() + i,
                self@.globs == r0.globs + Seq::new(
                    (self@.names.len() - r0.names.len()) as nat,
                    |_i: int| Seq::<nat>::empty(),
                ),
                self@.pending == r0.pending,
                r0.globs.len() == r0.names.len(),
                self@.names.len() >= r0.names.len(),
            decreases modules@.len() - i,
        {
            proof {
                lemma_registered(r0.names, r0.errs, ns.take(i as int));
                assert(ns.take(i as int + 1).drop_last() =~= ns.take(i as int));
                assert(ns.take(i as int + 1).last() == modules@[i as int].name@);
            }
            let name = &modules[i].name;
            match self.find_module(name) {
                Some(_) => {
                    let e = ValidationError::DuplicateModule { name: name.clone() };
                    proof {
                        assert(module_errs_m(self.errors@.push(e)) =~= module_errs_m(self.errors@).push(
                            module_err_m(e),
                        ));
                    }
                    self.errors.push(e);
                },
                None => {
                    let id = self.module_names.len() as u32;
                    let ghost before = self@;
                    self.module_names.push(name.clone());
                    self.hir.modules.push(
                        HirModule {
                            id: ModuleId(id),
                            name: name.clone(),
                            structs: Vec::new(),
                            interfaces: Vec::new(),
                            functions: Vec::new(),
                            imports: Vec::new(),
                        },
                    );
                    proof {
                        assert(self@.names =~= before.names.push(name@));
                        assert(glob_sources(Seq::<HirImport>::empty()) == Seq::<nat>::empty());
                        assert(self@.globs =~= before.globs.push(Seq::<nat>::empty()));
                        assert(self@.globs =~= r0.globs + Seq::new(
                            (self@.names.len() - r0.names.len()) as nat,
                            |_i: int| Seq::<nat>::empty(),
                        ));
                        assert(self@.pending =~= before.pending);
                        assert(self@.errs =~= before.errs);
                    }
                },
            }
            i = i + 1;
        }
        proof {
            assert(ns.take(modules@.len() as int) =~= ns);
            lemma_registered(r0.names, r0.errs, ns);
            assert forall|k: int| 0 <= k < modules@.len() implies name_index(
                self@.names,
                #[trigger] modules@[k].name@,
            ) >= 0 by {
                assert(ns[k] == modules@[k].name@);
            }
        }
        self.resolve_imports(modules, Ghost(r0));
    }

    /// The second step of registration: each module's imports in order.
    #[verifier::rlimit(80)]
    fn resolve_imports(&mut self, modules: &[Module], Ghost(r0): Ghost<RegistryM>)
        requires
            old(self).wf(),
            old(self)@.globs.len() == old(self)@.names.len(),
            ({
                let (names, errs) = register_names(r0.names, r0.errs, modules@.map_values(|m: Module| m.name@));
                &&& old(self)@.names == names
                &&& old(self)@.errs == errs
                &&& old(self)@.globs == r0.globs + Seq::new(
                    (names.len() - r0.names.len()) as nat,
                    |_i: int| Seq::<nat>::empty(),
                )
                &&& old(self)@.pending == r0.pending
            }),
            forall|k: int| 0 <= k < modules@.len() ==> name_index(old(self)@.names, #[trigger] modules@[k].name@) >= 0,
        ensures
            final(self).wf(),
            final(self).spec_modules() == old(self).spec_modules(),
            final(self)@ == spec_register_modules(r0, modules@),
    {
        let ghost nm = self@.names;
        let ghost st0 = imports_of(self@);
        let mut i: usize = 0;
        while i < modules.len()
            invariant
                self.wf(),
                self.spec_modules() == old(self).spec_modules(),
                self@.names == nm,
                self@.globs.len() == nm.len(),
                i <= modules@.len(),
                imports_of(self@) == resolve_all_imports(st0, nm, modules@.take(i as int)),
                forall|k: int| 0 <= k < modules@.len() ==> name_index(nm, #[trigger] modules@[k].name@) >= 0,
            decreases modules@.len() - i,
        {
            let module = &modules[i];
            let importer = match self.find_module(&module.name) {
                Some(k) => k,
                None => {
                    proof {
                        assert(name_index(nm, modules@[i as int].name@) >= 0);
                    }
                    return;
                },
            };
            let ghost reqs = module_requests(*module).1;
            let ghost st_i = imports_of(self@);
            proof {
                lemma_name_index_push(nm, module.name@, module.name@);
            }
            let mut j: usize = 0;
            while j < module.program.items.len()
                invariant
                    self.wf(),
                    self.spec_modules() == old(self).spec_modules(),
                    self@.names == nm,
                    self@.globs.len() == nm.len(),
                    j <= module.program.items@.len(),
                    i < modules@.len(),
                    module == modules@[i as int],
                    reqs == module.program.items@.map_values(|it: Item| import_request(it)),
                    importer as int == name_index(nm, module.name@),
                    0 <= importer < nm.len(),
                    imports_of(self@) == resolve_module_imports(st_i, nm, i as nat, module.name@, reqs.take(j as int)),
                decreases module.program.items@.len() - j,
            {
                proof {
                    assert(reqs.take(j as int + 1).drop_last() =~= reqs.take(j as int));
                }
                let ghost before = self@;
                if let ItemKind::Import(import) = &module.program.items[j].kind {
                    if import.module == module.name {
                        let e = ValidationError::SelfImport { module: module.name.clone() };
                        proof {
                            assert(module_errs_m(self.errors@.push(e)) =~= module_errs_m(self.errors@).push(
                                module_err_m(e),
                            ));
                        }
                        self.errors.push(e);
                    } else {
                        match self.find_module(&import.module) {
                            None => {
                                let e = ValidationError::UnknownImportModule {
                                    in_module: module.name.clone(),
                                    target: import.module.clone(),
                                };
                                proof {
                                    assert(module_errs_m(self.errors@.push(e)) =~= module_errs_m(
                                        self.errors@,
                                    ).push(module_err_m(e)));
                                }
                                self.errors.push(e);
                            },
                            Some(source) => {
                                proof {
                                    lemma_name_index_push(nm, import.module@, import.module@);
                                }
                                match &import.symbols {
                                    ImportSymbols::Glob => {
                                        let ghost mods = self.hir.modules@;
                                        let mut m = self.hir.modules.remove(importer as usize);
                                        m.imports.push(HirImport::Glob(ModuleId(source)));
                                        self.hir.modules.insert(importer as usize, m);
                                        proof {
                                            assert(self.hir.modules@ =~= mods.update(importer as int, m));
                                            assert(m.imports@.drop_last() =~= mods[importer as int].imports@);
                                            assert(self@.globs =~= before.globs.update(
                                                importer as int,
                                                before.globs[importer as int].push(source as nat),
                                            ));
                                        }
                                    },
                                    ImportSymbols::Named(_) => {
                                        let pn = PendingNamedImport {
                                            importer: ModuleId(importer),
                                            source: ModuleId(source),
                                            module_index: i,
                                            item_index: j,
                                        };
                                        self.pending_named_imports.push(pn);
                                        proof {
                                            assert(self@.pending =~= before.pending.push(
                                                (importer as nat, source as nat, i as nat, j as nat),
                                            ));
                                        }
                                    },
                                }
                            },
                        }
                    }
                }
                j = j + 1;
            }
            proof {
                assert(reqs.take(module.program.items@.len() as int) =~= reqs);
                assert(modules@.take(i as int + 1).drop_last() =~= modules@.take(i as int));
            }
            i = i + 1;
        }
        proof {
            assert(modules@.take(modules@.len() as int) =~= modules@);
        }
    }
}

impl Validator {
    /// The errors reported so far.
    pub fn errors(&self) -> (r: &Vec<ValidationError>)
        ensures
            module_errs_m(r@) == self@.errs,
    {
        &self.errors
    }

    /// The HIR built so far.
    pub fn hir(&self) -> (r: &Hir)
        requires
            self.wf(),
        ensures
            r.modules@.map_values(|m: HirModule| glob_sources(m.imports@)) == self@.globs,
            r.modules@.len() == self@.names.len(),
    {
        &self.hir
    }

    /// The named imports waiting for the names of their source modules.
    pub fn pending_named_imports(&self) -> (r: &Vec<PendingNamedImport>)
        ensures
            r@.map_values(
                |p: PendingNamedImport| (p.importer.0 as nat, p.source.0 as nat, p.module_index as nat, p.item_index as nat),
            ) == self@.pending,
    {
        &self.pending_named_imports
    }
}

// ---------------------------------------------------------------------------
// The validator: registration of type, function and alias names
// ---------------------------------------------------------------------------

/// The model of a scope entry.
pub enum EntryM {
    Type(nat),
    Function(nat),
    Alias(nat, Seq<char>),
}

/// The model of a module scope.
pub struct ScopeM {
    pub direct: Seq<(Seq<char>, EntryM)>,
    pub globs: Seq<nat>,
    pub imported: Seq<Seq<char>>,
}

/// What an item declares by name.
pub enum DeclM {
    Struct(bool),
    Interface,
    Function,
    Alias,
}

/// The name an item declares, and what kind of thing it is.
pub open spec fn decl_request(i: Item) -> Option<(Seq<char>, DeclM)> {
    match i.kind {
        ItemKind::Struct(d) => Some((d.name@, DeclM::Struct(d.is_extern))),
        ItemKind::Interface(d) => Some((d.name@, DeclM::Interface)),
        ItemKind::Function(d) => Some((d.name@, DeclM::Function)),
        ItemKind::TypeAlias(d) => Some((d.name@, DeclM::Alias)),
        _ => None,
    }
}

/// The model of what name registration builds: the errors, the next free
/// type and function ids, the skeletons of structs (id, module, name, extern
/// flag), interfaces and functions (id, module, name), each module's
/// struct, interface and function ids, the module scopes (by module id, a
/// later one for the same id replacing an earlier), the type aliases
/// (module, name, module index, item index), and the functions whose
/// bodies wait (id, module index, item index).
pub struct NamesM {
    pub errs: Seq<ModuleErrM>,
    pub next_type: nat,
    pub next_fn: nat,
    pub structs: Seq<(nat, nat, Seq<char>, bool)>,
    pub interfaces: Seq<(nat, nat, Seq<char>)>,
    pub functions: Seq<(nat, nat, Seq<char>)>,
    pub members: Seq<(Seq<nat>, Seq<nat>, Seq<nat>)>,
    pub scopes: Seq<(nat, ScopeM)>,
    pub aliases: Seq<(nat, Seq<char>, nat, nat)>,
    pub bodies: Seq<(nat, nat, nat)>,
}

/// Whether a scope already holds `name`.
pub open spec fn direct_has(direct: Seq<(Seq<char>, EntryM)>, name: Seq<char>) -> bool {
    exists|k: int| 0 <= k < direct.len() && (#[trigger] direct[k]).0 == name
}

/// One declaration of module `mid` (named `mname`, at index `mi` in the
/// list, item `ii`): a name already in the module's scope is reported;
/// otherwise a struct or interface gets the next type id, a function the
/// next function id (its body waits), an alias is recorded; and the name
/// enters the scope.
pub open spec fn register_decl(
    st: NamesM,
    direct: Seq<(Seq<char>, EntryM)>,
    mid: nat,
    mname: Seq<char>,
    mi: nat,
    ii: nat,
    req: Option<(Seq<char>, DeclM)>,
) -> (NamesM, Seq<(Seq<char>, EntryM)>) {
    match req {
        None => (st, direct),
        Some((n, k)) => if direct_has(direct, n) {
            (NamesM { errs: st.errs.push(ModuleErrM::DuplicateName(mname, n)), ..st }, direct)
        } else {
            let m = st.members[mid as int];
            match k {
                DeclM::Struct(ext) => (
                    NamesM {
                        next_type: st.next_type + 1,
                        structs: st.structs.push((st.next_type, mid, n, ext)),
                        members: st.members.update(mid as int, (m.0.push(st.next_type), m.1, m.2)),
                        ..st
                    },
                    direct.push((n, EntryM::Type(st.next_type))),
                ),
                DeclM::Interface => (
                    NamesM {
                        next_type: st.next_type + 1,
                        interfaces: st.interfaces.push((st.next_type, mid, n)),
                        members: st.members.update(mid as int, (m.0, m.1.push(st.next_type), m.2)),
                        ..st
                    },
                    direct.push((n, EntryM::Type(st.next_type))),
                ),
                DeclM::Function => (
                    NamesM {
                        next_fn: st.next_fn + 1,
                        functions: st.functions.push((st.next_fn, mid, n)),
                        members: st.members.update(mid as int, (m.0, m.1, m.2.push(st.next_fn))),
                        bodies: st.bodies.push((st.next_fn, mi, ii)),
                        ..st
                    },
                    direct.push((n, EntryM::Function(st.next_fn))),
                ),
                DeclM::Alias => (
                    NamesM { aliases: st.aliases.push((mid, n, mi, ii)), ..st },
                    direct.push((n, EntryM::Alias(mid, n))),
                ),
            }
        },
    }
}

/// The declarations of one module, in item order.
pub open spec fn register_decls(
    st: NamesM,
    mid: nat,
    mname: Seq<char>,
    mi: nat,
    reqs: Seq<Option<(Seq<char>, DeclM)>>,
) -> (NamesM, Seq<(Seq<char>, EntryM)>)
    decreases reqs.len(),
{
    if reqs.len() == 0 {
        (st, Seq::empty())
    } else {
        let (s1, d1) = register_decls(st, mid, mname, mi, reqs.drop_last());
        register_decl(s1, d1, mid, mname, mi, (reqs.len() - 1) as nat, reqs.last())
    }
}

/// The names of every module, in order: a module not registered is
/// skipped; the scope of each ends up holding its declared names and the
/// modules it imports by glob.
pub open spec fn register_all_names(st: NamesM, r: RegistryM, ms: Seq<Module>) -> NamesM
    decreases ms.len(),
{
    if ms.len() == 0 {
        st
    } else {
        let s1 = register_all_names(st, r, ms.drop_last());
        let m = ms.last();
        let mid = name_index(r.names, m.name@);
        if mid < 0 {
            s1
        } else {
            let (s2, direct) = register_decls(
                s1,
                mid as nat,
                m.name@,
                (ms.len() - 1) as nat,
                m.program.items@.map_values(|i: Item| decl_request(i)),
            );
            NamesM {
                scopes: s2.scopes.push(
                    (mid as nat, ScopeM { direct, globs: r.globs[mid], imported: Seq::empty() }),
                ),
                ..s2
            }
        }
    }
}

/// The number of items over all the modules.
pub open spec fn items_count(ms: Seq<Module>) -> nat
    decreases ms.len(),
{
    if ms.len() == 0 {
        0
    } else {
        items_count(ms.drop_last()) + ms.last().program.items@.len()
    }
}

pub open spec fn entry_m(e: ScopeEntry) -> EntryM {
    match e {
        ScopeEntry::Type(t) => EntryM::Type(t.0 as nat),
        ScopeEntry::Function(f) => EntryM::Function(f.0 as nat),
        ScopeEntry::Alias { source, name } => EntryM::Alias(source.0 as nat, name@),
    }
}

pub open spec fn direct_m(d: Seq<(String, ScopeEntry)>) -> Seq<(Seq<char>, EntryM)> {
    d.map_values(|e: (String, ScopeEntry)| (e.0@, entry_m(e.1)))
}

pub open spec fn scope_m(s: ModuleScope) -> ScopeM {
    ScopeM {
        direct: direct_m(s.direct@),
        globs: s.globs@.map_values(|m: ModuleId| m.0 as nat),
        imported: s.imported_names@.map_values(|n: String| n@),
    }
}

impl Validator {
    /// The model of what name registration has built.
    pub closed spec fn names_view(&self) -> NamesM {
        NamesM {
            errs: module_errs_m(self.errors@),
            next_type: self.next_type_id as nat,
            next_fn: self.next_fn_id as nat,
            structs: self.hir.structs@.map_values(
                |h: HirStruct| (h.id.0 as nat, h.module.0 as nat, h.name@, h.is_extern),
            ),
            interfaces: self.hir.interfaces@.map_values(|h: HirInterface| (h.id.0 as nat, h.module.0 as nat, h.name@)),
            functions: self.hir.functions@.map_values(|h: HirFunction| (h.id.0 as nat, h.module.0 as nat, h.name@)),
            members: self.hir.modules@.map_values(
                |m: HirModule| (
                    m.structs@.map_values(|t: TypeId| t.0 as nat),
                    m.interfaces@.map_values(|t: TypeId| t.0 as nat),
                    m.functions@.map_values(|f: FnId| f.0 as nat),
                ),
            ),
            scopes: self.module_scopes@.map_values(|e: (ModuleId, ModuleScope)| (e.0.0 as nat, scope_m(e.1))),
            aliases: self.module_aliases@.map_values(
                |a: (ModuleId, String, usize, usize)| (a.0.0 as nat, a.1@, a.2 as nat, a.3 as nat),
            ),
            bodies: self.pending_function_bodies@.map_values(
                |b: (FnId, usize, usize)| (b.0.0 as nat, b.1 as nat, b.2 as nat),
            ),
        }
    }
}

proof fn lemma_items_count_take(ms: Seq<Module>, i: int)
    requires
        0 <= i <= ms.len(),
    ensures
        items_count(ms.take(i)) <= items_count(ms),
    decreases ms.len(),
{
    if i < ms.len() {
        assert(ms.take(i) =~= ms.drop_last().take(i));
        lemma_items_count_take(ms.drop_last(), i);
    } else {
        assert(ms.take(i) =~= ms);
    }
}

/// The glob sources among a module's imports.
fn glob_ids(imports: &Vec<HirImport>) -> (r: Vec<ModuleId>)
    ensures
        r@.map_values(|m: ModuleId| m.0 as nat) == glob_sources(imports@),
{
    let mut r: Vec<ModuleId> = Vec::new();
    let mut k: usize = 0;
    while k < imports.len()
        invariant
            k <= imports@.len(),
            r@.map_values(|m: ModuleId| m.0 as nat) == glob_sources(imports@.take(k as int)),
        decreases imports@.len() - k,
    {
        assert(imports@.take(k as int + 1).drop_last() =~= imports@.take(k as int));
        if let HirImport::Glob(id) = &imports[k] {
            r.push(*id);
        }
        proof {
            assert(r@.map_values(|m: ModuleId| m.0 as nat) =~= glob_sources(imports@.take(k as int + 1)));
        }
        k = k + 1;
    }
    assert(imports@.take(imports@.len() as int) =~= imports@);
    r
}

/// Whether `name` is already in the scope.
fn direct_contains(direct: &Vec<(String, ScopeEntry)>, name: &String) -> (r: bool)
    ensures
        r == direct_has(direct_m(direct@), name@),
{
    let mut k: usize = 0;
    while k < direct.len()
        invariant
            k <= direct@.len(),
            forall|j: int| 0 <= j < k ==> (#[trigger] direct_m(direct@)[j]).0 != name@,
        decreases direct@.len() - k,
    {
        if direct[k].0 == *name {
            proof {
                assert(direct_m(direct@)[k as int].0 == name@);
            }
            return true;
        }
        k = k + 1;
    }
    false
}

impl Validator {
    /// Adds `id` to the struct, interface or function list (`which` 0, 1 or
    /// 2) of module `mid`.
    fn add_member(&mut self, mid: u32, which: u8, id: u32)
        requires
            old(self).wf(),
            mid < old(self)@.names.len(),
        ensures
            final(self).wf(),
            final(self)@ == old(self)@,
            final(self).names_view() == (NamesM {
                members: old(self).names_view().members.update(
                    mid as int,
                    ({
                        let m = old(self).names_view().members[mid as int];
                        if which == 0 {
                            (m.0.push(id as nat), m.1, m.2)
                        } else if which == 1 {
                            (m.0, m.1.push(id as nat), m.2)
                        } else {
                            (m.0, m.1, m.2.push(id as nat))
                        }
                    }),
                ),
                ..old(self).names_view()
            }),
    {
        let ghost mods = self.hir.modules@;
        let mut m = self.hir.modules.remove(mid as usize);
        let ghost m0 = m;
        if which == 0 {
            m.structs.push(TypeId(id));
        } else if which == 1 {
            m.interfaces.push(TypeId(id));
        } else {
            m.functions.push(FnId(id));
        }
        self.hir.modules.insert(mid as usize, m);
        proof {
            assert(self.hir.modules@ =~= mods.update(mid as int, m));
            assert(m.imports@ == m0.imports@);
            assert(self@.globs =~= old(self)@.globs);
            assert(m.structs@.map_values(|t: TypeId| t.0 as nat) =~= (if which == 0 {
                m0.structs@.map_values(|t: TypeId| t.0 as nat).push(id as nat)
            } else {
                m0.structs@.map_values(|t: TypeId| t.0 as nat)
            }));
            assert(m.interfaces@.map_values(|t: TypeId| t.0 as nat) =~= (if which == 1 {
                m0.interfaces@.map_values(|t: TypeId| t.0 as nat).push(id as nat)
            } else {
                m0.interfaces@.map_values(|t: TypeId| t.0 as nat)
            }));
            assert(m.functions@.map_values(|f: FnId| f.0 as nat) =~= (if which != 0 && which != 1 {
                m0.functions@.map_values(|f: FnId| f.0 as nat).push(id as nat)
            } else {
                m0.functions@.map_values(|f: FnId| f.0 as nat)
            }));
            assert(self.names_view().members =~= old(self).names_view().members.update(
                mid as int,
                ({
                    let m = old(self).names_view().members[mid as int];
                    if which == 0 {
                        (m.0.push(id as nat), m.1, m.2)
                    } else if which == 1 {
                        (m.0, m.1.push(id as nat), m.2)
                    } else {
                        (m.0, m.1, m.2.push(id as nat))
                    }
                }),
            ));
        }
    }
}

impl Validator {
    /// Registers the name that item `ii` of `module` (at index `mi` in the
    /// list, registered as `mid`) declares, in `direct`, the module's scope.
    #[verifier::rlimit(80)]
    fn register_item(
        &mut self,
        direct: &mut Vec<(String, ScopeEntry)>,
        mid: u32,
        module: &Module,
        mi: usize,
        ii: usize,
    )
        requires
            old(self).wf(),
            mid < old(self)@.names.len(),
            ii < module.program.items@.len(),
            old(self).names_view().next_type < u32::MAX,
            old(self).names_view().next_fn < u32::MAX,
        ensures
            final(self).wf(),
            final(self)@ == (RegistryM { errs: final(self).names_view().errs, ..old(self)@ }),
            (final(self).names_view(), direct_m(final(direct)@)) == register_decl(
                old(self).names_view(),
                direct_m(old(direct)@),
                mid as nat,
                module.name@,
                mi as nat,
                ii as nat,
                decl_request(module.program.items@[ii as int]),
            ),
    {
        let ghost v0 = self.names_view();
        let ghost d0 = direct_m(direct@);
        let ghost r0 = self@;
        let item = &module.program.items[ii];
        let name: &String = match &item.kind {
            ItemKind::Struct(d) => &d.name,
            ItemKind::Interface(d) => &d.name,
            ItemKind::Function(d) => &d.name,
            ItemKind::TypeAlias(d) => &d.name,
            _ => {
                return;
            },
        };
        if direct_contains(direct, name) {
            let e = ValidationError::DuplicateName { module: module.name.clone(), name: name.clone() };
            proof {
                assert(module_errs_m(self.errors@.push(e)) =~= module_errs_m(self.errors@).push(module_err_m(e)));
            }
            self.errors.push(e);
            proof {
                assert(self.names_view() =~= NamesM { errs: v0.errs.push(module_err_m(e)), ..v0 });
                assert(self@ =~= RegistryM { errs: self.names_view().errs, ..r0 });
            }
            return;
        }
        match &item.kind {
            ItemKind::Struct(decl) => {
                let id = self.next_type_id;
                self.next_type_id = id + 1;
                let h = HirStruct {
                    id: TypeId(id),
                    module: ModuleId(mid),
                    name: decl.name.clone(),
                    is_extern: decl.is_extern,
                    type_params: Vec::new(),
                    fields: Vec::new(),
                    methods: Vec::new(),
                    specialised_methods: Vec::new(),
                    implements: Vec::new(),
                };
                self.hir.structs.push(h);
                self.add_member(mid, 0, id);
                let entry = (decl.name.clone(), ScopeEntry::Type(TypeId(id)));
                direct.push(entry);
                proof {
                    assert(direct_m(direct@) =~= d0.push((name@, EntryM::Type(id as nat))));
                    assert(self.names_view().structs =~= v0.structs.push((id as nat, mid as nat, name@, decl.is_extern)));
                }
            },
            ItemKind::Interface(decl) => {
                let id = self.next_type_id;
                self.next_type_id = id + 1;
                let h = HirInterface {
                    id: TypeId(id),
                    module: ModuleId(mid),
                    name: decl.name.clone(),
                    type_params: Vec::new(),
                    fields: Vec::new(),
                    methods: Vec::new(),
                    extends: Vec::new(),
                };
                self.hir.interfaces.push(h);
                self.add_member(mid, 1, id);
                let entry = (decl.name.clone(), ScopeEntry::Type(TypeId(id)));
                direct.push(entry);
                proof {
                    assert(direct_m(direct@) =~= d0.push((name@, EntryM::Type(id as nat))));
                    assert(self.names_view().interfaces =~= v0.interfaces.push((id as nat, mid as nat, name@)));
                }
            },
            ItemKind::Function(decl) => {
                let id = self.next_fn_id;
                self.next_fn_id = id + 1;
                let h = HirFunction {
                    id: FnId(id),
                    module: ModuleId(mid),
                    name: decl.name.clone(),
                    owner: None,
                    has_self: false,
                    type_params: Vec::new(),
                    params: Vec::new(),
                    return_type: ResolvedType::Null,
                    body: None,
                };
                self.hir.functions.push(h);
                self.add_member(mid, 2, id);
                let entry = (decl.name.clone(), ScopeEntry::Function(FnId(id)));
                direct.push(entry);
                self.pending_function_bodies.push((FnId(id), mi, ii));
                proof {
                    assert(direct_m(direct@) =~= d0.push((name@, EntryM::Function(id as nat))));
                    assert(self.names_view().functions =~= v0.functions.push((id as nat, mid as nat, name@)));
                    assert(self.names_view().bodies =~= v0.bodies.push((id as nat, mi as nat, ii as nat)));
                }
            },
            ItemKind::TypeAlias(decl) => {
                self.module_aliases.push((ModuleId(mid), decl.name.clone(), mi, ii));
                let entry = (decl.name.clone(), ScopeEntry::Alias { source: ModuleId(mid), name: decl.name.clone() });
                direct.push(entry);
                proof {
                    assert(direct_m(direct@) =~= d0.push((name@, EntryM::Alias(mid as nat, name@))));
                    assert(self.names_view().aliases =~= v0.aliases.push((mid as nat, name@, mi as nat, ii as nat)));
                }
            },
            _ => {},
        }
        proof {
            assert(self@ =~= RegistryM { errs: self.names_view().errs, ..r0 });
        }
    }
}

impl Validator {
    /// Phase two of validation: registers the names that every registered
    /// module declares (structs, interfaces, functions and type aliases)
    /// under fresh ids, reporting a name declared twice in one module, and
    /// records each module's scope: its declared names and the modules it
    /// imports by glob. The named imports left pending are resolved next,
    /// by `resolve_named_imports`.
    #[verifier::rlimit(80)]
    pub fn register_type_names(&mut self, modules: &[Module])
        requires
            old(self).wf(),
            old(self)@.globs.len() == old(self)@.names.len(),
            old(self).names_view().next_type + items_count(modules@) < u32::MAX,
            old(self).names_view().next_fn + items_count(modules@) < u32::MAX,
        ensures
            final(self).wf(),
            final(self)@ == (RegistryM { errs: final(self).names_view().errs, ..old(self)@ }),
            final(self).names_view() == register_all_names(old(self).names_view(), old(self)@, modules@),
    {
        let ghost r0 = self@;
        let ghost v0 = self.names_view();
        let mut i: usize = 0;
        while i < modules.len()
            invariant
                self.wf(),
                r0 == old(self)@,
                v0 == old(self).names_view(),
                r0.globs.len() == r0.names.len(),
                i <= modules@.len(),
                self@ == (RegistryM { errs: self.names_view().errs, ..r0 }),
                self.names_view() == register_all_names(v0, r0, modules@.take(i as int)),
                self.names_view().next_type <= v0.next_type + items_count(modules@.take(i as int)),
                self.names_view().next_fn <= v0.next_fn + items_count(modules@.take(i as int)),
                v0.next_type + items_count(modules@) < u32::MAX,
                v0.next_fn + items_count(modules@) < u32::MAX,
            decreases modules@.len() - i,
        {
            proof {
                assert(modules@.take(i as int + 1).drop_last() =~= modules@.take(i as int));
                lemma_items_count_take(modules@, i as int + 1);
            }
            let module = &modules[i];
            let mid = match self.find_module(&module.name) {
                Some(k) => k,
                None => {
                    i = i + 1;
                    continue;
                },
            };
            proof {
                lemma_name_index_push(r0.names, module.name@, module.name@);
            }
            let ghost s_i = self.names_view();
            let ghost reqs = module.program.items@.map_values(|it: Item| decl_request(it));
            let mut direct: Vec<(String, ScopeEntry)> = Vec::new();
            let mut j: usize = 0;
            while j < module.program.items.len()
                invariant
                    self.wf(),
                    self@ == (RegistryM { errs: self.names_view().errs, ..r0 }),
                    i < modules@.len(),
                    module == modules@[i as int],
                    mid < r0.names.len(),
                    mid as int == name_index(r0.names, module.name@),
                    j <= module.program.items@.len(),
                    reqs == module.program.items@.map_values(|it: Item| decl_request(it)),
                    (self.names_view(), direct_m(direct@)) == register_decls(
                        s_i,
                        mid as nat,
                        module.name@,
                        i as nat,
                        reqs.take(j as int),
                    ),
                    self.names_view().next_type <= s_i.next_type + j,
                    self.names_view().next_fn <= s_i.next_fn + j,
                    s_i.next_type + module.program.items@.len() < u32::MAX,
                    s_i.next_fn + module.program.items@.len() < u32::MAX,
                decreases module.program.items@.len() - j,
            {
                proof {
                    assert(reqs.take(j as int + 1).drop_last() =~= reqs.take(j as int));
                }
                self.register_item(&mut direct, mid, module, i, j);
                j = j + 1;
            }
            proof {
                assert(reqs.take(module.program.items@.len() as int) =~= reqs);
            }
            let globs = glob_ids(&self.hir.modules[mid as usize].imports);
            let scope = ModuleScope { direct, globs, imported_names: Vec::new() };
            let ghost before = self.names_view();
            self.module_scopes.push((ModuleId(mid), scope));
            proof {
                assert(self.hir.modules@[mid as int].imports@ == self.hir.modules@[mid as int].imports@);
                assert(self@.globs[mid as int] == glob_sources(self.hir.modules@[mid as int].imports@));
                assert(scope_m(scope).imported =~= Seq::<Seq<char>>::empty());
                assert(self.names_view().scopes =~= before.scopes.push((mid as nat, scope_m(scope))));
            }
            i = i + 1;
        }
        proof {
            assert(modules@.take(modules@.len() as int) =~= modules@);
        }
    }
}

// ---------------------------------------------------------------------------
// The validator: named imports
// ---------------------------------------------------------------------------

/// The model of an imported symbol recorded in the HIR.
pub enum ImportSymM {
    Type(nat, Seq<char>),
    Function(nat, Seq<char>),
    /// Source module, name there, local name.
    Alias(nat, Seq<char>, Seq<char>),
}

pub open spec fn import_sym_m(s: HirImportSymbol) -> ImportSymM {
    match s {
        HirImportSymbol::Type(t, l) => ImportSymM::Type(t.0 as nat, l@),
        HirImportSymbol::Function(f, l) => ImportSymM::Function(f.0 as nat, l@),
        HirImportSymbol::Alias { source, original, local } => ImportSymM::Alias(source.0 as nat, original@, local@),
    }
}

pub open spec fn syms_m(s: Seq<HirImportSymbol>) -> Seq<ImportSymM> {
    s.map_values(|x: HirImportSymbol| import_sym_m(x))
}

/// The named imports among a module's imports: source and symbols.
pub open spec fn named_imports(imports: Seq<HirImport>) -> Seq<(nat, Seq<ImportSymM>)>
    decreases imports.len(),
{
    if imports.len() == 0 {
        Seq::empty()
    } else {
        match imports.last() {
            HirImport::Named(m, syms) => named_imports(imports.drop_last()).push(
                (m.0 as nat, syms_m(syms@)),
            ),
            _ => named_imports(imports.drop_last()),
        }
    }
}

/// The symbols that a named import asks for (name, alias), read from the
/// item at `ii` of module `mi`; none when that item is no named import.
pub open spec fn pending_symbols(ms: Seq<Module>, mi: nat, ii: nat) -> Seq<(Seq<char>, Option<Seq<char>>)> {
    if mi < ms.len() && ii < ms[mi as int].program.items@.len() {
        match ms[mi as int].program.items@[ii as int].kind {
            ItemKind::Import(d) => match d.symbols {
                ImportSymbols::Named(v) => v@.map_values(
                    |x: ImportSymbol| (
                        x.name@,
                        match x.alias {
                            Some(a) => Some(a@),
                            None => None,
                        },
                    ),
                ),
                _ => Seq::empty(),
            },
            _ => Seq::empty(),
        }
    } else {
        Seq::empty()
    }
}

/// The index of the scope of module `id`: the last one recorded for it,
/// or -1.
pub open spec fn scope_index(scopes: Seq<(nat, ScopeM)>, id: nat) -> int
    decreases scopes.len(),
{
    if scopes.len() == 0 {
        -1
    } else if scopes.last().0 == id {
        scopes.len() - 1
    } else {
        scope_index(scopes.drop_last(), id)
    }
}

/// The first entry of a scope for `name`.
pub open spec fn direct_lookup(direct: Seq<(Seq<char>, EntryM)>, name: Seq<char>) -> Option<EntryM>
    decreases direct.len(),
{
    if direct.len() == 0 {
        None
    } else {
        match direct_lookup(direct.drop_last(), name) {
            Some(e) => Some(e),
            None => if direct.last().0 == name {
                Some(direct.last().1)
            } else {
                None
            },
        }
    }
}

/// The symbol recorded for an entry imported under `local`.
pub open spec fn symbol_for(e: EntryM, local: Seq<char>) -> ImportSymM {
    match e {
        EntryM::Type(t) => ImportSymM::Type(t, local),
        EntryM::Function(f) => ImportSymM::Function(f, local),
        EntryM::Alias(m, n) => ImportSymM::Alias(m, n, local),
    }
}

/// One symbol of a named import from `src` into `imp`: a symbol the source
/// does not declare is reported; a local name already imported is reported;
/// a local name that a local declaration holds keeps it (the symbol is
/// still recorded); otherwise the name enters the importer's scope.
pub open spec fn resolve_symbol(
    st: NamesM,
    res: Seq<ImportSymM>,
    names: Seq<Seq<char>>,
    imp: nat,
    src: nat,
    sym: (Seq<char>, Option<Seq<char>>),
) -> (NamesM, Seq<ImportSymM>) {
    let local = match sym.1 {
        Some(a) => a,
        None => sym.0,
    };
    let si = scope_index(st.scopes, src);
    let found = if si < 0 {
        None
    } else {
        direct_lookup(st.scopes[si].1.direct, sym.0)
    };
    match found {
        None => (
            NamesM { errs: st.errs.push(ModuleErrM::UnknownSymbol(names[imp as int], names[src as int], sym.0)), ..st },
            res,
        ),
        Some(e) => {
            let ii = scope_index(st.scopes, imp);
            let sc = st.scopes[ii].1;
            if direct_has(sc.direct, local) {
                if sc.imported.contains(local) {
                    (NamesM { errs: st.errs.push(ModuleErrM::DuplicateImport(names[imp as int], local)), ..st }, res)
                } else {
                    (st, res.push(symbol_for(e, local)))
                }
            } else {
                (
                    NamesM {
                        scopes: st.scopes.update(
                            ii,
                            (imp, ScopeM { direct: sc.direct.push((local, e)), imported: sc.imported.push(local), ..sc }),
                        ),
                        ..st
                    },
                    res.push(symbol_for(e, local)),
                )
            }
        },
    }
}

/// The symbols of one named import, in order.
pub open spec fn resolve_symbols(
    st: NamesM,
    names: Seq<Seq<char>>,
    imp: nat,
    src: nat,
    syms: Seq<(Seq<char>, Option<Seq<char>>)>,
) -> (NamesM, Seq<ImportSymM>)
    decreases syms.len(),
{
    if syms.len() == 0 {
        (st, Seq::empty())
    } else {
        let (s1, r1) = resolve_symbols(st, names, imp, src, syms.drop_last());
        resolve_symbol(s1, r1, names, imp, src, syms.last())
    }
}

/// Every pending named import in order; an import that resolves at least
/// one symbol is recorded on the importing module.
pub open spec fn resolve_all_pending(
    st: NamesM,
    named: Seq<Seq<(nat, Seq<ImportSymM>)>>,
    names: Seq<Seq<char>>,
    ps: Seq<(nat, nat, nat, nat)>,
    ms: Seq<Module>,
) -> (NamesM, Seq<Seq<(nat, Seq<ImportSymM>)>>)
    decreases ps.len(),
{
    if ps.len() == 0 {
        (st, named)
    } else {
        let (s1, n1) = resolve_all_pending(st, named, names, ps.drop_last(), ms);
        let p = ps.last();
        let (s2, res) = resolve_symbols(s1, names, p.0, p.1, pending_symbols(ms, p.2, p.3));
        (s2, if res.len() > 0 { n1.update(p.0 as int, n1[p.0 as int].push((p.1, res))) } else { n1 })
    }
}

/// Every module that a pending import names has a scope.
pub open spec fn pending_scoped(ps: Seq<(nat, nat, nat, nat)>, scopes: Seq<(nat, ScopeM)>) -> bool {
    forall|k: int| 0 <= k < ps.len() ==> scope_index(scopes, (#[trigger] ps[k]).0) >= 0
}

proof fn lemma_scope_index(scopes: Seq<(nat, ScopeM)>, id: nat)
    ensures
        -1 <= scope_index(scopes, id) < scopes.len(),
        scope_index(scopes, id) >= 0 ==> scopes[scope_index(scopes, id)].0 == id,
    decreases scopes.len(),
{
    if scopes.len() > 0 {
        lemma_scope_index(scopes.drop_last(), id);
    }
}

proof fn lemma_scope_index_update(scopes: Seq<(nat, ScopeM)>, k: int, sc: ScopeM, id: nat)
    requires
        0 <= k < scopes.len(),
    ensures
        scope_index(scopes.update(k, (scopes[k].0, sc)), id) == scope_index(scopes, id),
    decreases scopes.len(),
{
    let t = scopes.update(k, (scopes[k].0, sc));
    if k < scopes.len() - 1 {
        assert(t.drop_last() =~= scopes.drop_last().update(k, (scopes[k].0, sc)));
        lemma_scope_index_update(scopes.drop_last(), k, sc, id);
    } else {
        assert(t.drop_last() =~= scopes.drop_last());
    }
}

impl Validator {
    /// The named imports recorded on each module.
    pub closed spec fn named_view(&self) -> Seq<Seq<(nat, Seq<ImportSymM>)>> {
        self.hir.modules@.map_values(|m: HirModule| named_imports(m.imports@))
    }
}

fn copy_entry(e: &ScopeEntry) -> (r: ScopeEntry)
    ensures
        entry_m(r) == entry_m(*e),
{
    match e {
        ScopeEntry::Type(t) => ScopeEntry::Type(*t),
        ScopeEntry::Function(f) => ScopeEntry::Function(*f),
        ScopeEntry::Alias { source, name } => ScopeEntry::Alias { source: *source, name: name.clone() },
    }
}

/// The first entry of `direct` for `name`, copied.
fn lookup_direct(direct: &Vec<(String, ScopeEntry)>, name: &String) -> (r: Option<ScopeEntry>)
    ensures
        match r {
            Some(e) => direct_lookup(direct_m(direct@), name@) == Some(entry_m(e)),
            None => direct_lookup(direct_m(direct@), name@) is None,
        },
{
    let ghost d = direct_m(direct@);
    let mut k: usize = 0;
    while k < direct.len()
        invariant
            k <= direct@.len(),
            d == direct_m(direct@),
            direct_lookup(d.take(k as int), name@) is None,
        decreases direct@.len() - k,
    {
        assert(d.take(k as int + 1).drop_last() =~= d.take(k as int));
        if direct[k].0 == *name {
            let e = copy_entry(&direct[k].1);
            proof {
                lemma_direct_lookup_prefix(d, name@, k as int + 1);
            }
            return Some(e);
        }
        k = k + 1;
    }
    assert(d.take(k as int) =~= d);
    None
}

proof fn lemma_direct_lookup_prefix(d: Seq<(Seq<char>, EntryM)>, name: Seq<char>, n: int)
    requires
        0 <= n <= d.len(),
        direct_lookup(d.take(n), name) is Some,
    ensures
        direct_lookup(d, name) == direct_lookup(d.take(n), name),
    decreases d.len() - n,
{
    if n < d.len() {
        assert(d.take(n + 1).drop_last() =~= d.take(n));
        lemma_direct_lookup_prefix(d, name, n + 1);
    } else {
        assert(d.take(n) =~= d);
    }
}

proof fn lemma_direct_lookup_has(d: Seq<(Seq<char>, EntryM)>, name: Seq<char>)
    ensures
        direct_lookup(d, name) is Some ==> direct_has(d, name),
    decreases d.len(),
{
    if d.len() > 0 {
        lemma_direct_lookup_has(d.drop_last(), name);
        if direct_lookup(d.drop_last(), name) is Some {
            let k = choose|k: int| 0 <= k < d.drop_last().len() && (#[trigger] d.drop_last()[k]).0 == name;
            assert(d[k] == d.drop_last()[k]);
        } else if d.last().0 == name {
            assert(d[d.len() - 1].0 == name);
        }
    }
}

/// Whether `v` holds `x`.
fn string_in(v: &Vec<String>, x: &String) -> (r: bool)
    ensures
        r == v@.map_values(|n: String| n@).contains(x@),
{
    let ghost vs = v@.map_values(|n: String| n@);
    let mut k: usize = 0;
    while k < v.len()
        invariant
            k <= v@.len(),
            vs == v@.map_values(|n: String| n@),
            forall|j: int| 0 <= j < k ==> #[trigger] vs[j] != x@,
        decreases v@.len() - k,
    {
        if v[k] == *x {
            proof {
                assert(vs[k as int] == x@);
            }
            return true;
        }
        k = k + 1;
    }
    false
}

impl Validator {
    /// The index of the scope of module `id`: the last one recorded for it.
    fn find_scope(&self, id: u32) -> (r: Option<usize>)
        ensures
            match r {
                Some(k) => k as int == scope_index(self.names_view().scopes, id as nat),
                None => scope_index(self.names_view().scopes, id as nat) < 0,
            },
    {
        let ghost sc = self.names_view().scopes;
        let mut k: usize = self.module_scopes.len();
        assert(sc.take(k as int) =~= sc);
        while k > 0
            invariant
                k <= self.module_scopes@.len(),
                sc == self.names_view().scopes,
                sc.len() == self.module_scopes@.len(),
                scope_index(sc, id as nat) == scope_index(sc.take(k as int), id as nat),
            decreases k,
        {
            assert(sc.take(k as int).drop_last() =~= sc.take(k as int - 1));
            assert(sc[k - 1].0 == self.module_scopes@[k - 1].0.0 as nat);
            if self.module_scopes[k - 1].0.0 == id {
                return Some(k - 1);
            }
            k = k - 1;
        }
        None
    }
}


/// The module ids of a list of scopes, in order.
pub open spec fn scope_ids(scopes: Seq<(nat, ScopeM)>) -> Seq<nat> {
    scopes.map_values(|p: (nat, ScopeM)| p.0)
}

proof fn lemma_scope_index_ids(a: Seq<(nat, ScopeM)>, b: Seq<(nat, ScopeM)>, id: nat)
    requires
        scope_ids(a) == scope_ids(b),
    ensures
        scope_index(a, id) == scope_index(b, id),
    decreases a.len(),
{
    assert(a.len() == scope_ids(a).len() && b.len() == scope_ids(b).len());
    if a.len() > 0 {
        assert(a.last().0 == scope_ids(a)[a.len() - 1]);
        assert(b.last().0 == scope_ids(b)[b.len() - 1]);
        assert(scope_ids(a.drop_last()) =~= scope_ids(a).drop_last());
        assert(scope_ids(b.drop_last()) =~= scope_ids(b).drop_last());
        lemma_scope_index_ids(a.drop_last(), b.drop_last(), id);
    }
}

/// The symbol recorded for an entry imported under `local`.
fn symbol_of(e: &ScopeEntry, local: &String) -> (r: HirImportSymbol)
    ensures
        import_sym_m(r) == symbol_for(entry_m(*e), local@),
{
    match e {
        ScopeEntry::Type(t) => HirImportSymbol::Type(*t, local.clone()),
        ScopeEntry::Function(f) => HirImportSymbol::Function(*f, local.clone()),
        ScopeEntry::Alias { source, name } => HirImportSymbol::Alias {
            source: *source,
            original: name.clone(),
            local: local.clone(),
        },
    }
}

impl Validator {
    /// Resolves one symbol `name` (imported as `alias`, if given) of a named
    /// import of module `imp` from module `src`, recording it in `res`.
    fn resolve_import_symbol(
        &mut self,
        imp: u32,
        src: u32,
        name: &String,
        alias: &Option<String>,
        res: &mut Vec<HirImportSymbol>,
    )
        requires
            old(self).wf(),
            imp < old(self)@.names.len(),
            src < old(self)@.names.len(),
            scope_index(old(self).names_view().scopes, imp as nat) >= 0,
        ensures
            final(self).wf(),
            final(self)@ == (RegistryM { errs: final(self).names_view().errs, ..old(self)@ }),
            final(self).named_view() == old(self).named_view(),
            scope_ids(final(self).names_view().scopes) == scope_ids(old(self).names_view().scopes),
            (final(self).names_view(), syms_m(final(res)@)) == resolve_symbol(
                old(self).names_view(),
                syms_m(old(res)@),
                old(self)@.names,
                imp as nat,
                src as nat,
                (
                    name@,
                    match *alias {
                        Some(a) => Some(a@),
                        None => None,
                    },
                ),
            ),
    {
        let ghost st = self.names_view();
        let ghost r0 = syms_m(res@);
        let local: String = match alias {
            Some(a) => a.clone(),
            None => name.clone(),
        };
        proof {
            lemma_scope_index(st.scopes, src as nat);
            lemma_scope_index(st.scopes, imp as nat);
        }
        let found: Option<ScopeEntry> = match self.find_scope(src) {
            Some(k) => lookup_direct(&self.module_scopes[k].1.direct, name),
            None => None,
        };
        match found {
            None => {
                let e = ValidationError::UnknownImportSymbol {
                    in_module: self.module_names[imp as usize].clone(),
                    from_module: self.module_names[src as usize].clone(),
                    symbol: name.clone(),
                };
                self.errors.push(e);
                proof {
                    assert(module_errs_m(self.errors@) =~= st.errs.push(module_err_m(e)));
                }
            },
            Some(e) => {
                let ii: usize = match self.find_scope(imp) {
                    Some(k) => k,
                    None => {
                        return;
                    },
                };
                let has = direct_contains(&self.module_scopes[ii].1.direct, &local);
                if has {
                    if string_in(&self.module_scopes[ii].1.imported_names, &local) {
                        let err = ValidationError::DuplicateImport {
                            in_module: self.module_names[imp as usize].clone(),
                            local_name: local,
                        };
                        self.errors.push(err);
                        proof {
                            assert(module_errs_m(self.errors@) =~= st.errs.push(module_err_m(err)));
                        }
                    } else {
                        let sym = symbol_of(&e, &local);
                        res.push(sym);
                        proof {
                            assert(syms_m(res@) =~= r0.push(import_sym_m(sym)));
                        }
                    }
                } else {
                    let sym = symbol_of(&e, &local);
                    let ghost scopes0 = self.module_scopes@;
                    let (sid, mut sc) = self.module_scopes.remove(ii);
                    let ghost sc0 = scope_m(sc);
                    sc.direct.push((local.clone(), e));
                    sc.imported_names.push(local);
                    let ghost sc1 = sc;
                    self.module_scopes.insert(ii, (sid, sc));
                    res.push(sym);
                    proof {
                        assert(self.module_scopes@ =~= scopes0.update(ii as int, (sid, sc1)));
                        assert(scope_m(sc1).direct =~= sc0.direct.push((local@, entry_m(e))));
                        assert(scope_m(sc1).imported =~= sc0.imported.push(local@));
                        assert(scope_m(sc1).globs =~= sc0.globs);
                        assert(self.names_view().scopes =~= st.scopes.update(
                            ii as int,
                            (imp as nat, ScopeM { direct: sc0.direct.push((local@, entry_m(e))), imported: sc0.imported.push(local@), ..sc0 }),
                        ));
                        assert(syms_m(res@) =~= r0.push(import_sym_m(sym)));
                        assert(scope_ids(self.names_view().scopes) =~= scope_ids(st.scopes));
                    }
                }
            },
        }
    }
}


proof fn lemma_named_imports_push(imports: Seq<HirImport>, x: HirImport)
    ensures
        named_imports(imports.push(x)) == (match x {
            HirImport::Named(m, syms) => named_imports(imports).push((m.0 as nat, syms_m(syms@))),
            _ => named_imports(imports),
        }),
        x is Named ==> glob_sources(imports.push(x)) == glob_sources(imports),
{
    assert(imports.push(x).drop_last() =~= imports);
}

impl Validator {
    /// The last step of name registration: resolves each pending named
    /// import, in order, against the scope of its source module. A symbol
    /// the source does not declare is reported; a local name imported twice
    /// is reported; a local name that a declaration of the importing module
    /// holds keeps that declaration; any other enters the importer's scope.
    /// An import that resolves at least one symbol is recorded on the
    /// importing module. Nothing is left pending.
    #[verifier::rlimit(80)]
    pub fn resolve_named_imports(&mut self, modules: &[Module])
        requires
            old(self).wf(),
            pending_scoped(old(self)@.pending, old(self).names_view().scopes),
        ensures
            final(self).wf(),
            final(self)@ == (RegistryM { errs: final(self).names_view().errs, pending: Seq::empty(), ..old(self)@ }),
            (final(self).names_view(), final(self).named_view()) == resolve_all_pending(
                old(self).names_view(),
                old(self).named_view(),
                old(self)@.names,
                old(self)@.pending,
                modules@,
            ),
    {
        let ghost r0 = self@;
        let ghost v0 = self.names_view();
        let ghost n0 = self.named_view();
        let ghost ps = r0.pending;
        let mut pending: Vec<PendingNamedImport> = Vec::new();
        std::mem::swap(&mut pending, &mut self.pending_named_imports);
        proof {
            assert(self@.pending =~= Seq::<(nat, nat, nat, nat)>::empty());
        }
        let mut k: usize = 0;
        while k < pending.len()
            invariant
                self.wf(),
                self@ == (RegistryM { errs: self.names_view().errs, pending: Seq::empty(), ..r0 }),
                k <= pending@.len(),
                ps == pending@.map_values(
                    |p: PendingNamedImport| (p.importer.0 as nat, p.source.0 as nat, p.module_index as nat, p.item_index as nat),
                ),
                forall|j: int|
                    0 <= j < pending@.len() ==> (#[trigger] pending@[j]).importer.0 < r0.names.len()
                        && pending@[j].source.0 < r0.names.len(),
                pending_scoped(ps, v0.scopes),
                scope_ids(self.names_view().scopes) == scope_ids(v0.scopes),
                (self.names_view(), self.named_view()) == resolve_all_pending(v0, n0, r0.names, ps.take(k as int), modules@),
            decreases pending@.len() - k,
        {
            proof {
                assert(ps.take(k as int + 1).drop_last() =~= ps.take(k as int));
                assert(ps[k as int] == ps.take(k as int + 1).last());
            }
            let imp = pending[k].importer.0;
            let src = pending[k].source.0;
            let mi = pending[k].module_index;
            let ii = pending[k].item_index;
            proof {
                assert(ps[k as int].0 == imp as nat);
                assert(scope_index(v0.scopes, imp as nat) >= 0);
                lemma_scope_index_ids(self.names_view().scopes, v0.scopes, imp as nat);
            }
            let ghost s1 = self.names_view();
            let ghost syms = pending_symbols(modules@, mi as nat, ii as nat);
            let mut res: Vec<HirImportSymbol> = Vec::new();
            if mi < modules.len() && ii < modules[mi].program.items.len() {
                match &modules[mi].program.items[ii].kind {
                    ItemKind::Import(d) => match &d.symbols {
                        ImportSymbols::Named(v) => {
                            let mut j: usize = 0;
                            proof {
                                assert(syms_m(res@) =~= Seq::<ImportSymM>::empty());
                            }
                            while j < v.len()
                                invariant
                                    self.wf(),
                                    self@ == (RegistryM { errs: self.names_view().errs, pending: Seq::empty(), ..r0 }),
                                    self.named_view() == resolve_all_pending(v0, n0, r0.names, ps.take(k as int), modules@).1,
                                    imp < r0.names.len(),
                                    src < r0.names.len(),
                                    scope_index(self.names_view().scopes, imp as nat) >= 0,
                                    scope_index(v0.scopes, imp as nat) >= 0,
                                    scope_ids(self.names_view().scopes) == scope_ids(v0.scopes),
                                    scope_ids(s1.scopes) == scope_ids(v0.scopes),
                                    j <= v@.len(),
                                    syms == v@.map_values(
                                        |x: ImportSymbol| (
                                            x.name@,
                                            match x.alias {
                                                Some(a) => Some(a@),
                                                None => None,
                                            },
                                        ),
                                    ),
                                    (self.names_view(), syms_m(res@)) == resolve_symbols(s1, r0.names, imp as nat, src as nat, syms.take(j as int)),
                                decreases v@.len() - j,
                            {
                                proof {
                                    assert(syms.take(j as int + 1).drop_last() =~= syms.take(j as int));
                                }
                                self.resolve_import_symbol(imp, src, &v[j].name, &v[j].alias, &mut res);
                                proof {
                                    lemma_scope_index_ids(self.names_view().scopes, v0.scopes, imp as nat);
                                }
                                j = j + 1;
                            }
                            proof {
                                assert(syms.take(v@.len() as int) =~= syms);
                            }
                        },
                        _ => {
                            proof {
                                assert(syms.len() == 0);
                                assert(syms_m(res@) =~= Seq::<ImportSymM>::empty());
                            }
                        },
                    },
                    _ => {
                        proof {
                            assert(syms.len() == 0);
                            assert(syms_m(res@) =~= Seq::<ImportSymM>::empty());
                        }
                    },
                }
            } else {
                proof {
                    assert(syms.len() == 0);
                    assert(syms_m(res@) =~= Seq::<ImportSymM>::empty());
                }
            }
            proof {
                assert((self.names_view(), syms_m(res@)) == resolve_symbols(s1, r0.names, imp as nat, src as nat, syms));
                assert(ps[k as int] == (imp as nat, src as nat, mi as nat, ii as nat));
                assert(res@.len() == syms_m(res@).len());
            }
            let ghost nv = self.names_view();
            if res.len() > 0 {
                let ghost mods = self.hir.modules@;
                let ghost res_m = syms_m(res@);
                let mut m = self.hir.modules.remove(imp as usize);
                let ghost m0 = m;
                m.imports.push(HirImport::Named(ModuleId(src), res));
                self.hir.modules.insert(imp as usize, m);
                proof {
                    assert(self.hir.modules@ =~= mods.update(imp as int, m));
                    lemma_named_imports_push(m0.imports@, HirImport::Named(ModuleId(src), res));
                    assert(m.imports@ == m0.imports@.push(HirImport::Named(ModuleId(src), res)));
                    assert(self@.globs =~= r0.globs);
                    assert(self.named_view() =~= resolve_all_pending(v0, n0, r0.names, ps.take(k as int), modules@).1.update(
                        imp as int,
                        resolve_all_pending(v0, n0, r0.names, ps.take(k as int), modules@).1[imp as int].push((src as nat, res_m)),
                    ));
                    assert(m.structs@ == m0.structs@ && m.interfaces@ == m0.interfaces@ && m.functions@ == m0.functions@);
                    assert(self.names_view().members =~= nv.members);
                    assert(self.names_view() == nv);
                }
            }
            proof {
                let prev = resolve_all_pending(v0, n0, r0.names, ps.take(k as int), modules@);
                assert(s1 == prev.0);
                assert(ps.take(k as int + 1).last() == ps[k as int]);
                assert(resolve_all_pending(v0, n0, r0.names, ps.take(k as int + 1), modules@) == ({
                    let (s2, rs) = resolve_symbols(prev.0, r0.names, imp as nat, src as nat, syms);
                    (s2, if rs.len() > 0 { prev.1.update(imp as int, prev.1[imp as int].push((src as nat, rs))) } else { prev.1 })
                }));
            }
            k = k + 1;
        }
        proof {
            assert(ps.take(pending@.len() as int) =~= ps);
        }
    }
}


/// The local name under which a symbol is imported: its alias, or its name.
pub open spec fn local_name(sym: (Seq<char>, Option<Seq<char>>)) -> Seq<char> {
    match sym.1 {
        Some(a) => a,
        None => sym.0,
    }
}

/// A named import brings a symbol into the importing module's scope, so
/// importing it again under the same local name is reported as a duplicate
/// import: when the source declares the symbol and the importer's scope
/// does not yet hold the local name, the first resolution records the
/// symbol without error, and a second one reports `DuplicateImport` and
/// changes nothing else.
pub proof fn law_importing_a_name_twice_is_reported(
    st: NamesM,
    res: Seq<ImportSymM>,
    names: Seq<Seq<char>>,
    imp: nat,
    src: nat,
    sym: (Seq<char>, Option<Seq<char>>),
)
    requires
        scope_index(st.scopes, imp) >= 0,
        scope_index(st.scopes, src) >= 0,
        direct_lookup(st.scopes[scope_index(st.scopes, src)].1.direct, sym.0) is Some,
        !direct_has(st.scopes[scope_index(st.scopes, imp)].1.direct, local_name(sym)),
    ensures
        ({
            let (s1, r1) = resolve_symbol(st, res, names, imp, src, sym);
            let (s2, r2) = resolve_symbol(s1, r1, names, imp, src, sym);
            &&& s1.errs == st.errs
            &&& r1.len() == res.len() + 1
            &&& s2 == (NamesM { errs: s1.errs.push(ModuleErrM::DuplicateImport(names[imp as int], local_name(sym))), ..s1 })
            &&& r2 == r1
        }),
{
    let local = local_name(sym);
    let ii = scope_index(st.scopes, imp);
    let si = scope_index(st.scopes, src);
    lemma_scope_index(st.scopes, imp);
    lemma_scope_index(st.scopes, src);
    let e = direct_lookup(st.scopes[si].1.direct, sym.0).unwrap();
    let sc = st.scopes[ii].1;
    let nsc = ScopeM { direct: sc.direct.push((local, e)), imported: sc.imported.push(local), ..sc };
    let (s1, r1) = resolve_symbol(st, res, names, imp, src, sym);
    assert(s1.scopes == st.scopes.update(ii, (imp, nsc)));
    lemma_scope_index_update(st.scopes, ii, nsc, imp);
    lemma_scope_index_update(st.scopes, ii, nsc, src);
    assert(st.scopes.update(ii, (imp, nsc)) == st.scopes.update(ii, (st.scopes[ii].0, nsc)));
    assert(scope_index(s1.scopes, imp) == ii);
    assert(scope_index(s1.scopes, src) == si);
    if si == ii {
        let d = s1.scopes[si].1.direct;
        assert(d.take(sc.direct.len() as int) =~= sc.direct);
        lemma_direct_lookup_prefix(d, sym.0, sc.direct.len() as int);
    }
    assert(direct_lookup(s1.scopes[si].1.direct, sym.0) is Some);
    assert(s1.scopes[ii].1.direct[sc.direct.len() as int].0 == local);
    assert(direct_has(s1.scopes[ii].1.direct, local));
    assert(s1.scopes[ii].1.imported[sc.imported.len() as int] == local);
    assert(s1.scopes[ii].1.imported.contains(local));
}


/// The first module among `globs`, in order, whose scope declares `name`:
/// its entry.
pub open spec fn glob_lookup(scopes: Seq<(nat, ScopeM)>, globs: Seq<nat>, name: Seq<char>) -> Option<EntryM>
    decreases globs.len(),
{
    if globs.len() == 0 {
        None
    } else {
        match glob_lookup(scopes, globs.drop_last(), name) {
            Some(e) => Some(e),
            None => {
                let s = scope_index(scopes, globs.last());
                if s < 0 {
                    None
                } else {
                    direct_lookup(scopes[s].1.direct, name)
                }
            },
        }
    }
}

/// What `name` stands for in module `module`: its own entry, else that of
/// the first module it imports by glob that declares the name; none for a
/// module without a scope.
pub open spec fn scope_lookup(scopes: Seq<(nat, ScopeM)>, module: nat, name: Seq<char>) -> Option<EntryM> {
    let si = scope_index(scopes, module);
    if si < 0 {
        None
    } else {
        match direct_lookup(scopes[si].1.direct, name) {
            Some(e) => Some(e),
            None => glob_lookup(scopes, scopes[si].1.globs, name),
        }
    }
}

/// The entry of `name` in module `module`'s own scope (globs aside).
pub open spec fn direct_entry(scopes: Seq<(nat, ScopeM)>, module: nat, name: Seq<char>) -> Option<EntryM> {
    let si = scope_index(scopes, module);
    if si < 0 {
        None
    } else {
        direct_lookup(scopes[si].1.direct, name)
    }
}

impl Validator {
    /// What `name` stands for in `module`: the module's own entry, else
    /// that of the first module it imports by glob that declares it.
    pub fn lookup_in_scope(&self, module: ModuleId, name: &String) -> (r: Option<ScopeEntry>)
        ensures
            match r {
                Some(e) => scope_lookup(self.names_view().scopes, module.0 as nat, name@) == Some(entry_m(e)),
                None => scope_lookup(self.names_view().scopes, module.0 as nat, name@) is None,
            },
    {
        let ghost scopes = self.names_view().scopes;
        let si = match self.find_scope(module.0) {
            Some(k) => k,
            None => {
                return None;
            },
        };
        proof {
            lemma_scope_index(scopes, module.0 as nat);
        }
        let direct = lookup_direct(&self.module_scopes[si].1.direct, name);
        if direct.is_some() {
            return direct;
        }
        let globs = &self.module_scopes[si].1.globs;
        let ghost gs = scopes[si as int].1.globs;
        assert(gs =~= globs@.map_values(|m: ModuleId| m.0 as nat));
        let mut k: usize = 0;
        while k < globs.len()
            invariant
                k <= globs@.len(),
                scopes == self.names_view().scopes,
                gs == globs@.map_values(|m: ModuleId| m.0 as nat),
                0 <= si < scopes.len(),
                si as int == scope_index(scopes, module.0 as nat),
                gs == scopes[si as int].1.globs,
                direct_lookup(scopes[si as int].1.direct, name@) is None,
                glob_lookup(scopes, gs.take(k as int), name@) is None,
            decreases globs@.len() - k,
        {
            proof {
                assert(gs.take(k as int + 1).drop_last() =~= gs.take(k as int));
                lemma_scope_index(scopes, gs[k as int]);
            }
            match self.find_scope(globs[k].0) {
                Some(g) => {
                    proof {
                        lemma_scope_index(scopes, globs@[k as int].0 as nat);
                    }
                    let found = lookup_direct(&self.module_scopes[g].1.direct, name);
                    if found.is_some() {
                        proof {
                            assert(gs.take(k as int + 1).last() == gs[k as int]);
                            assert(gs[k as int] == globs@[k as int].0 as nat);
                            assert(scopes[g as int].1.direct == direct_m(self.module_scopes@[g as int].1.direct@));
                            assert(glob_lookup(scopes, gs.take(k as int + 1), name@) == Some(entry_m(found.unwrap())));
                            lemma_glob_lookup_prefix(scopes, gs, name@, k as int + 1);
                        }
                        return found;
                    }
                },
                None => {},
            }
            k = k + 1;
        }
        proof {
            assert(gs.take(globs@.len() as int) =~= gs);
        }
        None
    }

    /// The type that `name` names in `module`'s own scope, if it names one.
    pub fn find_type_id(&self, module: ModuleId, name: &String) -> (r: Option<TypeId>)
        ensures
            r == (match direct_entry(self.names_view().scopes, module.0 as nat, name@) {
                Some(EntryM::Type(t)) => Some(TypeId(t as u32)),
                _ => None::<TypeId>,
            }),
    {
        let si = match self.find_scope(module.0) {
            Some(k) => k,
            None => {
                return None;
            },
        };
        proof {
            lemma_scope_index(self.names_view().scopes, module.0 as nat);
        }
        match lookup_direct(&self.module_scopes[si].1.direct, name) {
            Some(ScopeEntry::Type(t)) => Some(t),
            _ => None,
        }
    }

    /// The function that `name` names in `module`'s own scope, if it names
    /// one.
    pub fn find_fn_id(&self, module: ModuleId, name: &String) -> (r: Option<FnId>)
        ensures
            r == (match direct_entry(self.names_view().scopes, module.0 as nat, name@) {
                Some(EntryM::Function(f)) => Some(FnId(f as u32)),
                _ => None::<FnId>,
            }),
    {
        let si = match self.find_scope(module.0) {
            Some(k) => k,
            None => {
                return None;
            },
        };
        proof {
            lemma_scope_index(self.names_view().scopes, module.0 as nat);
        }
        match lookup_direct(&self.module_scopes[si].1.direct, name) {
            Some(ScopeEntry::Function(f)) => Some(f),
            _ => None,
        }
    }
}

proof fn lemma_glob_lookup_prefix(scopes: Seq<(nat, ScopeM)>, gs: Seq<nat>, name: Seq<char>, n: int)
    requires
        0 <= n <= gs.len(),
        glob_lookup(scopes, gs.take(n), name) is Some,
    ensures
        glob_lookup(scopes, gs, name) == glob_lookup(scopes, gs.take(n), name),
    decreases gs.len() - n,
{
    if n < gs.len() {
        assert(gs.take(n + 1).drop_last() =~= gs.take(n));
        lemma_glob_lookup_prefix(scopes, gs, name, n + 1);
    } else {
        assert(gs.take(n) =~= gs);
    }
}


/// A named import makes the symbol's entry what its local name stands for
/// in the importing module, unless a declaration of that module holds the
/// name, which then keeps it: when the source declares the symbol, after
/// resolving it the importer's scope maps the local name to the source's
/// entry if the name was free, and to what it mapped before otherwise.
pub proof fn law_imported_name_resolves_in_importer(
    st: NamesM,
    res: Seq<ImportSymM>,
    names: Seq<Seq<char>>,
    imp: nat,
    src: nat,
    sym: (Seq<char>, Option<Seq<char>>),
)
    requires
        scope_index(st.scopes, imp) >= 0,
        scope_index(st.scopes, src) >= 0,
        direct_lookup(st.scopes[scope_index(st.scopes, src)].1.direct, sym.0) is Some,
    ensures
        ({
            let e = direct_lookup(st.scopes[scope_index(st.scopes, src)].1.direct, sym.0).unwrap();
            let before = direct_entry(st.scopes, imp, local_name(sym));
            let after = direct_entry(resolve_symbol(st, res, names, imp, src, sym).0.scopes, imp, local_name(sym));
            &&& before is None ==> after == Some(e)
            &&& before is Some ==> after == before
        }),
{
    let local = local_name(sym);
    let ii = scope_index(st.scopes, imp);
    lemma_scope_index(st.scopes, imp);
    lemma_scope_index(st.scopes, src);
    let e = direct_lookup(st.scopes[scope_index(st.scopes, src)].1.direct, sym.0).unwrap();
    let sc = st.scopes[ii].1;
    lemma_direct_lookup_has(sc.direct, local);
    if !direct_has(sc.direct, local) {
        let nsc = ScopeM { direct: sc.direct.push((local, e)), imported: sc.imported.push(local), ..sc };
        lemma_scope_index_update(st.scopes, ii, nsc, imp);
        assert(st.scopes.update(ii, (imp, nsc)) == st.scopes.update(ii, (st.scopes[ii].0, nsc)));
        assert(nsc.direct.drop_last() =~= sc.direct);
        if direct_lookup(sc.direct, local) is Some {
            assert(false);
        }
    } else {
        assert(direct_lookup(sc.direct, local) is Some || !(direct_lookup(sc.direct, local) is Some));
        if direct_lookup(sc.direct, local) is None {
            let k = choose|k: int| 0 <= k < sc.direct.len() && (#[trigger] sc.direct[k]).0 == local;
            lemma_direct_lookup_found(sc.direct, local, k);
        }
    }
}

proof fn lemma_direct_lookup_found(d: Seq<(Seq<char>, EntryM)>, name: Seq<char>, k: int)
    requires
        0 <= k < d.len(),
        d[k].0 == name,
    ensures
        direct_lookup(d, name) is Some,
    decreases d.len(),
{
    if k < d.len() - 1 {
        assert(d.drop_last()[k] == d[k]);
        lemma_direct_lookup_found(d.drop_last(), name, k);
    }
}


// ---------------------------------------------------------------------------
// The validator: resolving type expressions
// ---------------------------------------------------------------------------

/// What resolving a type expression reads: module names, scopes, the HIR's
/// structs and interfaces, the type aliases and the modules they stand in.
pub struct ResEnv {
    pub names: Seq<Seq<char>>,
    pub scopes: Seq<(nat, ScopeM)>,
    pub structs: Seq<HirStruct>,
    pub interfaces: Seq<HirInterface>,
    pub aliases: Seq<(nat, Seq<char>, nat, nat)>,
    pub modules: Seq<Module>,
}

/// Where a type expression is resolved: the module, the generic scopes
/// (outermost first), the substitution of an alias body being expanded,
/// and whether a pointer type is allowed.
pub struct TypeResolveCtx {
    pub module: ModuleId,
    pub generics: Vec<Vec<(String, TypeParamId)>>,
    pub local_subst: Vec<(String, ResolvedType)>,
    pub allow_pointer: bool,
}

/// The model of a resolution context.
pub struct CtxM {
    pub module: nat,
    pub generics: Seq<Seq<(Seq<char>, nat)>>,
    pub subst: Seq<(Seq<char>, TypeModel)>,
    pub allow_pointer: bool,
}

pub open spec fn ctx_m(c: TypeResolveCtx) -> CtxM {
    CtxM {
        module: c.module.0 as nat,
        generics: c.generics@.map_values(
            |g: Vec<(String, TypeParamId)>| g@.map_values(|p: (String, TypeParamId)| (p.0@, p.1.0 as nat)),
        ),
        subst: c.local_subst@.map_values(|p: (String, ResolvedType)| (p.0@, model(p.1))),
        allow_pointer: c.allow_pointer,
    }
}

/// The name of module `id`; empty for an id that names no module.
pub open spec fn mod_name(names: Seq<Seq<char>>, id: nat) -> Seq<char> {
    if id < names.len() {
        names[id as int]
    } else {
        Seq::empty()
    }
}

/// The resolved type of a primitive type expression.
pub open spec fn prim_resolved(p: crate::ast::PrimitiveType) -> TypeModel {
    match p {
        crate::ast::PrimitiveType::Int8 => TypeModel::Primitive(PrimitiveType::Int8),
        crate::ast::PrimitiveType::Int16 => TypeModel::Primitive(PrimitiveType::Int16),
        crate::ast::PrimitiveType::Int32 => TypeModel::Primitive(PrimitiveType::Int32),
        crate::ast::PrimitiveType::Int64 => TypeModel::Primitive(PrimitiveType::Int64),
        crate::ast::PrimitiveType::Uint8 => TypeModel::Primitive(PrimitiveType::Uint8),
        crate::ast::PrimitiveType::Uint16 => TypeModel::Primitive(PrimitiveType::Uint16),
        crate::ast::PrimitiveType::Uint32 => TypeModel::Primitive(PrimitiveType::Uint32),
        crate::ast::PrimitiveType::Uint64 => TypeModel::Primitive(PrimitiveType::Uint64),
        crate::ast::PrimitiveType::Float32 => TypeModel::Primitive(PrimitiveType::Float32),
        crate::ast::PrimitiveType::Float64 => TypeModel::Primitive(PrimitiveType::Float64),
        crate::ast::PrimitiveType::Bool => TypeModel::Primitive(PrimitiveType::Bool),
        crate::ast::PrimitiveType::String => TypeModel::Primitive(PrimitiveType::String),
        crate::ast::PrimitiveType::Char => TypeModel::Primitive(PrimitiveType::Char),
        crate::ast::PrimitiveType::Null => TypeModel::Null,
    }
}

/// The binding of `name` in an alias substitution: the last one.
pub open spec fn subst_lookup(s: Seq<(Seq<char>, TypeModel)>, name: Seq<char>) -> Option<TypeModel>
    decreases s.len(),
{
    if s.len() == 0 {
        None
    } else if s.last().0 == name {
        Some(s.last().1)
    } else {
        subst_lookup(s.drop_last(), name)
    }
}

/// The first type parameter of one generic scope named `name`.
pub open spec fn scope_param(s: Seq<(Seq<char>, nat)>, name: Seq<char>) -> Option<nat>
    decreases s.len(),
{
    if s.len() == 0 {
        None
    } else {
        match scope_param(s.drop_last(), name) {
            Some(i) => Some(i),
            None => if s.last().0 == name {
                Some(s.last().1)
            } else {
                None
            },
        }
    }
}

/// The type parameter `name` names, innermost generic scope first.
pub open spec fn generic_lookup(g: Seq<Seq<(Seq<char>, nat)>>, name: Seq<char>) -> Option<nat>
    decreases g.len(),
{
    if g.len() == 0 {
        None
    } else {
        match scope_param(g.last(), name) {
            Some(i) => Some(i),
            None => generic_lookup(g.drop_last(), name),
        }
    }
}

/// The first struct with id `id`.
pub open spec fn struct_info(structs: Seq<HirStruct>, id: nat) -> Option<HirStruct>
    decreases structs.len(),
{
    if structs.len() == 0 {
        None
    } else {
        match struct_info(structs.drop_last(), id) {
            Some(s) => Some(s),
            None => if structs.last().id.0 == id {
                Some(structs.last())
            } else {
                None
            },
        }
    }
}

/// The first interface with id `id`.
pub open spec fn iface_info(ifaces: Seq<HirInterface>, id: nat) -> Option<HirInterface>
    decreases ifaces.len(),
{
    if ifaces.len() == 0 {
        None
    } else {
        match iface_info(ifaces.drop_last(), id) {
            Some(s) => Some(s),
            None => if ifaces.last().id.0 == id {
                Some(ifaces.last())
            } else {
                None
            },
        }
    }
}

/// Where the first alias `name` of module `source` is declared.
pub open spec fn alias_at(aliases: Seq<(nat, Seq<char>, nat, nat)>, source: nat, name: Seq<char>) -> Option<(nat, nat)>
    decreases aliases.len(),
{
    if aliases.len() == 0 {
        None
    } else {
        match alias_at(aliases.drop_last(), source, name) {
            Some(p) => Some(p),
            None => if aliases.last().0 == source && aliases.last().1 == name {
                Some((aliases.last().2, aliases.last().3))
            } else {
                None
            },
        }
    }
}

/// The declaration of alias `name` of module `source`.
pub open spec fn alias_decl(env: ResEnv, source: nat, name: Seq<char>) -> Option<TypeAliasDecl> {
    match alias_at(env.aliases, source, name) {
        None => None,
        Some((mi, ii)) => if mi < env.modules.len() && ii < env.modules[mi as int].program.items@.len() {
            match env.modules[mi as int].program.items@[ii as int].kind {
                ItemKind::TypeAlias(d) => Some(d),
                _ => None,
            }
        } else {
            None
        },
    }
}

/// The errors for resolved generic arguments that are extern structs.
pub open spec fn extern_arg_errs(env: ResEnv, ts: Seq<TypeModel>) -> Seq<ModuleErrM>
    decreases ts.len(),
{
    if ts.len() == 0 {
        Seq::empty()
    } else {
        extern_arg_errs(env, ts.drop_last()) + match ts.last() {
            TypeModel::Struct(aid, _) => match struct_info(env.structs, aid as nat) {
                Some(st) => if st.is_extern {
                    seq![ModuleErrM::ExternStructAsGenericArg(mod_name(env.names, st.module.0 as nat), st.name@)]
                } else {
                    Seq::empty()
                },
                None => Seq::empty(),
            },
            _ => Seq::empty(),
        }
    }
}

/// The substitution of an alias body: each generic parameter's name bound
/// to the argument at its position.
pub open spec fn alias_subst(gs: Seq<GenericParam>, ts: Seq<TypeModel>) -> Seq<(Seq<char>, TypeModel)> {
    Seq::new(gs.len(), |i: int| (gs[i].name@, ts[i]))
}

/// Resolving a type expression: the errors it reports, in order, and the
/// resolved type; none when alias expansion needs more than `fuel` steps.
pub open spec fn res_type(env: ResEnv, ctx: CtxM, t: TypeExpr, fuel: nat) -> Option<(Seq<ModuleErrM>, TypeModel)>
    decreases fuel, t, 0nat,
{
    match t {
        TypeExpr::Primitive(p) => Some((Seq::empty(), prim_resolved(p))),
        TypeExpr::Union(v) => match res_types(env, ctx, v@, fuel) {
            Some((e, ts)) => Some((e, TypeModel::Union(ts))),
            None => None,
        },
        TypeExpr::Named(n, args) => res_named(env, ctx, n@, args@, fuel),
        TypeExpr::Function(ps, r) => match res_types(env, ctx, ps@, fuel) {
            None => None,
            Some((e1, ts)) => match res_type(env, ctx, *r, fuel) {
                None => None,
                Some((e2, rt)) => Some((e1 + e2, TypeModel::Function(ts, Box::new(rt)))),
            },
        },
        TypeExpr::ExternFunction(ps, r) => match res_externs(env, ctx, ps@, fuel) {
            None => None,
            Some((e1, ts)) => match res_type(env, ctx, *r, fuel) {
                None => None,
                Some((e2, rt)) => Some((e1 + e2, TypeModel::Function(ts, Box::new(rt)))),
            },
        },
        TypeExpr::Pointer(inner) => if !ctx.allow_pointer {
            Some(
                (
                    seq![ModuleErrM::PointerOutsideExtern(mod_name(env.names, ctx.module) + " (type expression)"@)],
                    TypeModel::Null,
                ),
            )
        } else {
            res_type(env, ctx, *inner, fuel)
        },
    }
}

/// Resolving type expressions in order.
pub open spec fn res_types(env: ResEnv, ctx: CtxM, s: Seq<TypeExpr>, fuel: nat) -> Option<(Seq<ModuleErrM>, Seq<TypeModel>)>
    decreases fuel, s, 0nat,
{
    if s.len() == 0 {
        Some((Seq::empty(), Seq::empty()))
    } else {
        match res_types(env, ctx, s.drop_last(), fuel) {
            None => None,
            Some((e1, ts)) => match res_type(env, ctx, s.last(), fuel) {
                None => None,
                Some((e2, t)) => Some((e1 + e2, ts.push(t))),
            },
        }
    }
}

/// Resolving the types of extern function parameters in order.
pub open spec fn res_externs(env: ResEnv, ctx: CtxM, s: Seq<ExternParam>, fuel: nat) -> Option<(Seq<ModuleErrM>, Seq<TypeModel>)>
    decreases fuel, s, 0nat,
{
    if s.len() == 0 {
        Some((Seq::empty(), Seq::empty()))
    } else {
        match res_externs(env, ctx, s.drop_last(), fuel) {
            None => None,
            Some((e1, ts)) => match res_type(env, ctx, s.last().ty, fuel) {
                None => None,
                Some((e2, t)) => Some((e1 + e2, ts.push(t))),
            },
        }
    }
}

/// Resolving a named type with arguments: an alias parameter being
/// expanded, then a type parameter (innermost scope first), then the
/// module's scope; a type checks its arity and its extern arguments, an
/// alias has its body resolved in its own module with its parameters
/// bound.
pub open spec fn res_named(env: ResEnv, ctx: CtxM, name: Seq<char>, args: Seq<TypeExpr>, fuel: nat) -> Option<(Seq<ModuleErrM>, TypeModel)>
    decreases fuel, args, 1nat,
{
    let mname = mod_name(env.names, ctx.module);
    if args.len() == 0 && subst_lookup(ctx.subst, name) is Some {
        Some((Seq::empty(), subst_lookup(ctx.subst, name).unwrap()))
    } else if generic_lookup(ctx.generics, name) is Some {
        if args.len() > 0 {
            Some((seq![ModuleErrM::GenericArgsOnTypeParam(mname, name)], TypeModel::Null))
        } else {
            Some((Seq::empty(), TypeModel::TypeParam(generic_lookup(ctx.generics, name).unwrap() as u32)))
        }
    } else {
        match scope_lookup(env.scopes, ctx.module, name) {
            None => Some((seq![ModuleErrM::UnknownType(mname, name)], TypeModel::Null)),
            Some(EntryM::Function(_)) => Some((seq![ModuleErrM::ExpectedTypeFoundFunction(mname, name)], TypeModel::Null)),
            Some(EntryM::Type(id)) => match res_types(env, ctx, args, fuel) {
                None => None,
                Some((e, ts)) => {
                    let arity: Option<nat> = match struct_info(env.structs, id) {
                        Some(st) => Some(st.type_params@.len()),
                        None => match iface_info(env.interfaces, id) {
                            Some(i) => Some(i.type_params@.len()),
                            None => None,
                        },
                    };
                    match arity {
                        None => Some((e, TypeModel::Null)),
                        Some(n) => if ts.len() != n {
                            Some((e.push(ModuleErrM::GenericArityMismatch(mname, name, n, ts.len())), TypeModel::Null))
                        } else if struct_info(env.structs, id) is Some {
                            Some((e + extern_arg_errs(env, ts), TypeModel::Struct(id as u32, ts)))
                        } else {
                            Some((e + extern_arg_errs(env, ts), TypeModel::Interface(id as u32, ts)))
                        },
                    }
                },
            },
            Some(EntryM::Alias(src, an)) => match alias_decl(env, src, an) {
                None => Some((Seq::empty(), TypeModel::Null)),
                Some(d) => if d.generics@.len() != args.len() {
                    Some(
                        (
                            seq![ModuleErrM::GenericArityMismatch(mname, an, d.generics@.len(), args.len())],
                            TypeModel::Null,
                        ),
                    )
                } else {
                    match res_types(env, ctx, args, fuel) {
                        None => None,
                        Some((e, ts)) => if fuel == 0 {
                            None
                        } else {
                            let actx = CtxM {
                                module: src,
                                generics: Seq::empty(),
                                subst: alias_subst(d.generics@, ts),
                                allow_pointer: false,
                            };
                            match res_type(env, actx, d.ty, (fuel - 1) as nat) {
                                None => None,
                                Some((e2, t)) => Some((e + e2, t)),
                            }
                        },
                    }
                },
            },
        }
    }
}


pub open spec fn subst_m(s: Seq<(String, ResolvedType)>) -> Seq<(Seq<char>, TypeModel)> {
    s.map_values(|p: (String, ResolvedType)| (p.0@, model(p.1)))
}

pub open spec fn gscope_m(s: Seq<(String, TypeParamId)>) -> Seq<(Seq<char>, nat)> {
    s.map_values(|p: (String, TypeParamId)| (p.0@, p.1.0 as nat))
}

/// The resolved type of a primitive type expression.
fn resolve_primitive(p: &crate::ast::PrimitiveType) -> (r: ResolvedType)
    ensures
        model(r) == prim_resolved(*p),
{
    match p {
        crate::ast::PrimitiveType::Int8 => ResolvedType::Primitive(PrimitiveType::Int8),
        crate::ast::PrimitiveType::Int16 => ResolvedType::Primitive(PrimitiveType::Int16),
        crate::ast::PrimitiveType::Int32 => ResolvedType::Primitive(PrimitiveType::Int32),
        crate::ast::PrimitiveType::Int64 => ResolvedType::Primitive(PrimitiveType::Int64),
        crate::ast::PrimitiveType::Uint8 => ResolvedType::Primitive(PrimitiveType::Uint8),
        crate::ast::PrimitiveType::Uint16 => ResolvedType::Primitive(PrimitiveType::Uint16),
        crate::ast::PrimitiveType::Uint32 => ResolvedType::Primitive(PrimitiveType::Uint32),
        crate::ast::PrimitiveType::Uint64 => ResolvedType::Primitive(PrimitiveType::Uint64),
        crate::ast::PrimitiveType::Float32 => ResolvedType::Primitive(PrimitiveType::Float32),
        crate::ast::PrimitiveType::Float64 => ResolvedType::Primitive(PrimitiveType::Float64),
        crate::ast::PrimitiveType::Bool => ResolvedType::Primitive(PrimitiveType::Bool),
        crate::ast::PrimitiveType::String => ResolvedType::Primitive(PrimitiveType::String),
        crate::ast::PrimitiveType::Char => ResolvedType::Primitive(PrimitiveType::Char),
        crate::ast::PrimitiveType::Null => ResolvedType::Null,
    }
}

/// The binding of `name` in an alias substitution: the last one, copied.
fn subst_find(s: &Vec<(String, ResolvedType)>, name: &String) -> (r: Option<ResolvedType>)
    ensures
        match r {
            Some(t) => subst_lookup(subst_m(s@), name@) == Some(model(t)),
            None => subst_lookup(subst_m(s@), name@) is None,
        },
{
    let ghost m = subst_m(s@);
    let mut i: usize = s.len();
    assert(m.take(i as int) =~= m);
    while i > 0
        invariant
            i <= s@.len(),
            m == subst_m(s@),
            subst_lookup(m, name@) == subst_lookup(m.take(i as int), name@),
        decreases i,
    {
        assert(m.take(i as int).drop_last() =~= m.take(i as int - 1));
        if s[i - 1].0 == *name {
            return Some(s[i - 1].1.clone());
        }
        i = i - 1;
    }
    None
}

/// The first type parameter of one generic scope named `name`.
fn scope_param_find(s: &Vec<(String, TypeParamId)>, name: &String) -> (r: Option<TypeParamId>)
    ensures
        match r {
            Some(id) => scope_param(gscope_m(s@), name@) == Some(id.0 as nat),
            None => scope_param(gscope_m(s@), name@) is None,
        },
{
    let ghost m = gscope_m(s@);
    let mut k: usize = 0;
    while k < s.len()
        invariant
            k <= s@.len(),
            m == gscope_m(s@),
            scope_param(m.take(k as int), name@) is None,
        decreases s@.len() - k,
    {
        assert(m.take(k as int + 1).drop_last() =~= m.take(k as int));
        if s[k].0 == *name {
            proof {
                lemma_scope_param_prefix(m, name@, k as int + 1);
            }
            return Some(s[k].1);
        }
        k = k + 1;
    }
    assert(m.take(k as int) =~= m);
    None
}

proof fn lemma_scope_param_prefix(m: Seq<(Seq<char>, nat)>, name: Seq<char>, n: int)
    requires
        0 <= n <= m.len(),
        scope_param(m.take(n), name) is Some,
    ensures
        scope_param(m, name) == scope_param(m.take(n), name),
    decreases m.len() - n,
{
    if n < m.len() {
        assert(m.take(n + 1).drop_last() =~= m.take(n));
        lemma_scope_param_prefix(m, name, n + 1);
    } else {
        assert(m.take(n) =~= m);
    }
}

/// The type parameter `name` names, innermost generic scope first.
fn generic_find(g: &Vec<Vec<(String, TypeParamId)>>, name: &String) -> (r: Option<TypeParamId>)
    ensures
        match r {
            Some(id) => generic_lookup(
                g@.map_values(|v: Vec<(String, TypeParamId)>| gscope_m(v@)),
                name@,
            ) == Some(id.0 as nat),
            None => generic_lookup(g@.map_values(|v: Vec<(String, TypeParamId)>| gscope_m(v@)), name@) is None,
        },
{
    let ghost m = g@.map_values(|v: Vec<(String, TypeParamId)>| gscope_m(v@));
    let mut i: usize = g.len();
    assert(m.take(i as int) =~= m);
    while i > 0
        invariant
            i <= g@.len(),
            m == g@.map_values(|v: Vec<(String, TypeParamId)>| gscope_m(v@)),
            generic_lookup(m, name@) == generic_lookup(m.take(i as int), name@),
        decreases i,
    {
        assert(m.take(i as int).drop_last() =~= m.take(i as int - 1));
        assert(m.take(i as int).last() == gscope_m(g@[i as int - 1]@));
        match scope_param_find(&g[i - 1], name) {
            Some(id) => {
                return Some(id);
            },
            None => {},
        }
        i = i - 1;
    }
    None
}

impl Validator {
    /// What resolving a type expression reads.
    pub closed spec fn res_env(&self, modules: Seq<Module>) -> ResEnv {
        ResEnv {
            names: self@.names,
            scopes: self.names_view().scopes,
            structs: self.hir.structs@,
            interfaces: self.hir.interfaces@,
            aliases: self.names_view().aliases,
            modules,
        }
    }

    /// `self` and `other` differ at most in their errors.
    pub closed spec fn same_but_errors(&self, other: &Validator) -> bool {
        &&& self.modules == other.modules
        &&& self.hir == other.hir
        &&& self.module_names == other.module_names
        &&& self.pending_named_imports == other.pending_named_imports
        &&& self.module_scopes == other.module_scopes
        &&& self.module_aliases == other.module_aliases
        &&& self.pending_function_bodies == other.pending_function_bodies
        &&& self.next_type_id == other.next_type_id
        &&& self.next_fn_id == other.next_fn_id
        &&& self.next_tp_id == other.next_tp_id
    }

    /// The name of module `id`, or an empty string.
    fn module_name_of(&self, id: u32) -> (r: String)
        ensures
            r@ == mod_name(self@.names, id as nat),
    {
        if (id as usize) < self.module_names.len() {
            self.module_names[id as usize].clone()
        } else {
            String::new()
        }
    }

    /// The index of the first struct with id `id`.
    fn struct_index(&self, id: u32) -> (r: Option<usize>)
        ensures
            match r {
                Some(k) => k < self.hir.structs@.len() && struct_info(self.hir.structs@, id as nat) == Some(
                    self.hir.structs@[k as int],
                ),
                None => struct_info(self.hir.structs@, id as nat) is None,
            },
    {
        let ghost m = self.hir.structs@;
        let mut k: usize = 0;
        while k < self.hir.structs.len()
            invariant
                k <= m.len(),
                m == self.hir.structs@,
                struct_info(m.take(k as int), id as nat) is None,
            decreases m.len() - k,
        {
            assert(m.take(k as int + 1).drop_last() =~= m.take(k as int));
            if self.hir.structs[k].id.0 == id {
                proof {
                    lemma_struct_info_prefix(m, id as nat, k as int + 1);
                }
                return Some(k);
            }
            k = k + 1;
        }
        assert(m.take(k as int) =~= m);
        None
    }

    /// The index of the first interface with id `id`.
    fn iface_index(&self, id: u32) -> (r: Option<usize>)
        ensures
            match r {
                Some(k) => k < self.hir.interfaces@.len() && iface_info(self.hir.interfaces@, id as nat) == Some(
                    self.hir.interfaces@[k as int],
                ),
                None => iface_info(self.hir.interfaces@, id as nat) is None,
            },
    {
        let ghost m = self.hir.interfaces@;
        let mut k: usize = 0;
        while k < self.hir.interfaces.len()
            invariant
                k <= m.len(),
                m == self.hir.interfaces@,
                iface_info(m.take(k as int), id as nat) is None,
            decreases m.len() - k,
        {
            assert(m.take(k as int + 1).drop_last() =~= m.take(k as int));
            if self.hir.interfaces[k].id.0 == id {
                proof {
                    lemma_iface_info_prefix(m, id as nat, k as int + 1);
                }
                return Some(k);
            }
            k = k + 1;
        }
        assert(m.take(k as int) =~= m);
        None
    }

    /// Where the first alias `name` of module `source` is declared.
    fn alias_find(&self, source: u32, name: &String) -> (r: Option<(usize, usize)>)
        ensures
            match r {
                Some((mi, ii)) => alias_at(self.names_view().aliases, source as nat, name@) == Some(
                    (mi as nat, ii as nat),
                ),
                None => alias_at(self.names_view().aliases, source as nat, name@) is None,
            },
    {
        let ghost m = self.names_view().aliases;
        let mut k: usize = 0;
        while k < self.module_aliases.len()
            invariant
                k <= self.module_aliases@.len(),
                m == self.names_view().aliases,
                alias_at(m.take(k as int), source as nat, name@) is None,
            decreases self.module_aliases@.len() - k,
        {
            assert(m.take(k as int + 1).drop_last() =~= m.take(k as int));
            if self.module_aliases[k].0.0 == source && self.module_aliases[k].1 == *name {
                proof {
                    lemma_alias_at_prefix(m, source as nat, name@, k as int + 1);
                }
                return Some((self.module_aliases[k].2, self.module_aliases[k].3));
            }
            k = k + 1;
        }
        assert(m.take(k as int) =~= m);
        None
    }
}

proof fn lemma_struct_info_prefix(m: Seq<HirStruct>, id: nat, n: int)
    requires
        0 <= n <= m.len(),
        struct_info(m.take(n), id) is Some,
    ensures
        struct_info(m, id) == struct_info(m.take(n), id),
    decreases m.len() - n,
{
    if n < m.len() {
        assert(m.take(n + 1).drop_last() =~= m.take(n));
        lemma_struct_info_prefix(m, id, n + 1);
    } else {
        assert(m.take(n) =~= m);
    }
}

proof fn lemma_iface_info_prefix(m: Seq<HirInterface>, id: nat, n: int)
    requires
        0 <= n <= m.len(),
        iface_info(m.take(n), id) is Some,
    ensures
        iface_info(m, id) == iface_info(m.take(n), id),
    decreases m.len() - n,
{
    if n < m.len() {
        assert(m.take(n + 1).drop_last() =~= m.take(n));
        lemma_iface_info_prefix(m, id, n + 1);
    } else {
        assert(m.take(n) =~= m);
    }
}

proof fn lemma_alias_at_prefix(m: Seq<(nat, Seq<char>, nat, nat)>, source: nat, name: Seq<char>, n: int)
    requires
        0 <= n <= m.len(),
        alias_at(m.take(n), source, name) is Some,
    ensures
        alias_at(m, source, name) == alias_at(m.take(n), source, name),
    decreases m.len() - n,
{
    if n < m.len() {
        assert(m.take(n + 1).drop_last() =~= m.take(n));
        lemma_alias_at_prefix(m, source, name, n + 1);
    } else {
        assert(m.take(n) =~= m);
    }
}

proof fn lemma_res_types_prefix(env: ResEnv, ctx: CtxM, s: Seq<TypeExpr>, fuel: nat, n: int)
    requires
        0 <= n <= s.len(),
        res_types(env, ctx, s, fuel) is Some,
    ensures
        res_types(env, ctx, s.take(n), fuel) is Some,
    decreases s.len() - n,
{
    if n < s.len() {
        lemma_res_types_prefix(env, ctx, s, fuel, n + 1);
        assert(s.take(n + 1).drop_last() =~= s.take(n));
    } else {
        assert(s.take(n) =~= s);
    }
}

proof fn lemma_res_externs_prefix(env: ResEnv, ctx: CtxM, s: Seq<ExternParam>, fuel: nat, n: int)
    requires
        0 <= n <= s.len(),
        res_externs(env, ctx, s, fuel) is Some,
    ensures
        res_externs(env, ctx, s.take(n), fuel) is Some,
    decreases s.len() - n,
{
    if n < s.len() {
        lemma_res_externs_prefix(env, ctx, s, fuel, n + 1);
        assert(s.take(n + 1).drop_last() =~= s.take(n));
    } else {
        assert(s.take(n) =~= s);
    }
}


impl Validator {
    /// Resolves `expr` in `ctx` with at most `fuel` alias expansions nested.
    fn resolve_type_fuel(
        &mut self,
        modules: &[Module],
        expr: &TypeExpr,
        ctx: &TypeResolveCtx,
        Ghost(fuel): Ghost<nat>,
    ) -> (r: ResolvedType)
        requires
            res_type(old(self).res_env(modules@), ctx_m(*ctx), *expr, fuel) is Some,
        ensures
            final(self).same_but_errors(old(self)),
            model(r) == res_type(old(self).res_env(modules@), ctx_m(*ctx), *expr, fuel).unwrap().1,
            module_errs_m(final(self).errors@) == module_errs_m(old(self).errors@) + res_type(
                old(self).res_env(modules@),
                ctx_m(*ctx),
                *expr,
                fuel,
            ).unwrap().0,
        decreases fuel, expr, 0nat,
    {
        let ghost env = self.res_env(modules@);
        let ghost e0 = module_errs_m(self.errors@);
        match expr {
            TypeExpr::Primitive(p) => {
                assert(module_errs_m(self.errors@) =~= e0 + Seq::<ModuleErrM>::empty());
                resolve_primitive(p)
            },
            TypeExpr::Union(v) => {
                let ts = self.resolve_types_fuel(modules, v, ctx, Ghost(fuel));
                ResolvedType::Union(ts)
            },
            TypeExpr::Named(n, args) => self.resolve_named_fuel(modules, n, args, ctx, Ghost(fuel)),
            TypeExpr::Function(ps, ret) => {
                let ts = self.resolve_types_fuel(modules, ps, ctx, Ghost(fuel));
                let ghost e1 = module_errs_m(self.errors@);
                let rt = self.resolve_type_fuel(modules, ret, ctx, Ghost(fuel));
                proof {
                    let a = res_types(env, ctx_m(*ctx), ps@, fuel).unwrap().0;
                    let b = res_type(env, ctx_m(*ctx), **ret, fuel).unwrap().0;
                    assert(module_errs_m(self.errors@) =~= e0 + (a + b));
                }
                ResolvedType::Function(ts, Box::new(rt))
            },
            TypeExpr::ExternFunction(ps, ret) => {
                let ts = self.resolve_externs_fuel(modules, ps, ctx, Ghost(fuel));
                let rt = self.resolve_type_fuel(modules, ret, ctx, Ghost(fuel));
                proof {
                    let a = res_externs(env, ctx_m(*ctx), ps@, fuel).unwrap().0;
                    let b = res_type(env, ctx_m(*ctx), **ret, fuel).unwrap().0;
                    assert(module_errs_m(self.errors@) =~= e0 + (a + b));
                }
                ResolvedType::Function(ts, Box::new(rt))
            },
            TypeExpr::Pointer(inner) => {
                if !ctx.allow_pointer {
                    let mut loc = self.module_name_of(ctx.module.0);
                    append_str(&mut loc, " (type expression)");
                    let err = ValidationError::PointerOutsideExtern { location: loc };
                    self.errors.push(err);
                    proof {
                        assert(module_errs_m(self.errors@) =~= e0 + seq![module_err_m(err)]);
                    }
                    ResolvedType::Null
                } else {
                    self.resolve_type_fuel(modules, inner, ctx, Ghost(fuel))
                }
            },
        }
    }

    /// Resolves type expressions in order.
    fn resolve_types_fuel(
        &mut self,
        modules: &[Module],
        v: &Vec<TypeExpr>,
        ctx: &TypeResolveCtx,
        Ghost(fuel): Ghost<nat>,
    ) -> (r: Vec<ResolvedType>)
        requires
            res_types(old(self).res_env(modules@), ctx_m(*ctx), v@, fuel) is Some,
        ensures
            final(self).same_but_errors(old(self)),
            models(r@) == res_types(old(self).res_env(modules@), ctx_m(*ctx), v@, fuel).unwrap().1,
            module_errs_m(final(self).errors@) == module_errs_m(old(self).errors@) + res_types(
                old(self).res_env(modules@),
                ctx_m(*ctx),
                v@,
                fuel,
            ).unwrap().0,
        decreases fuel, v, 0nat,
    {
        let ghost env = self.res_env(modules@);
        let ghost c = ctx_m(*ctx);
        let ghost e0 = module_errs_m(self.errors@);
        let ghost s0 = *self;
        let mut out: Vec<ResolvedType> = Vec::new();
        let mut i: usize = 0;
        proof {
            assert(v@.take(0) =~= Seq::<TypeExpr>::empty());
            assert(module_errs_m(self.errors@) =~= e0 + Seq::<ModuleErrM>::empty());
            assert(models(out@) =~= Seq::<TypeModel>::empty());
        }
        while i < v.len()
            invariant
                i <= v@.len(),
                self.same_but_errors(&s0),
                s0.same_but_errors(old(self)),
                env == old(self).res_env(modules@),
                c == ctx_m(*ctx),
                e0 == module_errs_m(old(self).errors@),
                res_types(env, c, v@, fuel) is Some,
                res_types(env, c, v@.take(i as int), fuel) is Some,
                models(out@) == res_types(env, c, v@.take(i as int), fuel).unwrap().1,
                module_errs_m(self.errors@) == e0 + res_types(env, c, v@.take(i as int), fuel).unwrap().0,
            decreases v@.len() - i,
        {
            proof {
                lemma_res_types_prefix(env, c, v@, fuel, i as int + 1);
                assert(v@.take(i as int + 1).drop_last() =~= v@.take(i as int));
                assert(v@.take(i as int + 1).last() == v@[i as int]);
                assert(decreases_to!(v => v@[i as int]));
            }
            let ghost before = module_errs_m(self.errors@);
            let t = self.resolve_type_fuel(modules, &v[i], ctx, Ghost(fuel));
            let ghost out0 = out@;
            out.push(t);
            proof {
                assert(out@.drop_last() =~= out0);
                let prev = res_types(env, c, v@.take(i as int), fuel).unwrap();
                let cur = res_type(env, c, v@[i as int], fuel).unwrap();
                assert(models(out@) == models(out0).push(model(t)));
                assert(module_errs_m(self.errors@) =~= e0 + (prev.0 + cur.0));
            }
            i = i + 1;
        }
        proof {
            assert(v@.take(v@.len() as int) =~= v@);
        }
        out
    }

    /// Resolves the types of extern function parameters in order.
    fn resolve_externs_fuel(
        &mut self,
        modules: &[Module],
        v: &Vec<ExternParam>,
        ctx: &TypeResolveCtx,
        Ghost(fuel): Ghost<nat>,
    ) -> (r: Vec<ResolvedType>)
        requires
            res_externs(old(self).res_env(modules@), ctx_m(*ctx), v@, fuel) is Some,
        ensures
            final(self).same_but_errors(old(self)),
            models(r@) == res_externs(old(self).res_env(modules@), ctx_m(*ctx), v@, fuel).unwrap().1,
            module_errs_m(final(self).errors@) == module_errs_m(old(self).errors@) + res_externs(
                old(self).res_env(modules@),
                ctx_m(*ctx),
                v@,
                fuel,
            ).unwrap().0,
        decreases fuel, v, 0nat,
    {
        let ghost env = self.res_env(modules@);
        let ghost c = ctx_m(*ctx);
        let ghost e0 = module_errs_m(self.errors@);
        let ghost s0 = *self;
        let mut out: Vec<ResolvedType> = Vec::new();
        let mut i: usize = 0;
        proof {
            assert(v@.take(0) =~= Seq::<ExternParam>::empty());
            assert(module_errs_m(self.errors@) =~= e0 + Seq::<ModuleErrM>::empty());
            assert(models(out@) =~= Seq::<TypeModel>::empty());
        }
        while i < v.len()
            invariant
                i <= v@.len(),
                self.same_but_errors(&s0),
                s0.same_but_errors(old(self)),
                env == old(self).res_env(modules@),
                c == ctx_m(*ctx),
                e0 == module_errs_m(old(self).errors@),
                res_externs(env, c, v@, fuel) is Some,
                res_externs(env, c, v@.take(i as int), fuel) is Some,
                models(out@) == res_externs(env, c, v@.take(i as int), fuel).unwrap().1,
                module_errs_m(self.errors@) == e0 + res_externs(env, c, v@.take(i as int), fuel).unwrap().0,
            decreases v@.len() - i,
        {
            proof {
                lemma_res_externs_prefix(env, c, v@, fuel, i as int + 1);
                assert(v@.take(i as int + 1).drop_last() =~= v@.take(i as int));
                assert(v@.take(i as int + 1).last() == v@[i as int]);
                assert(decreases_to!(v => v@[i as int].ty));
            }
            let t = self.resolve_type_fuel(modules, &v[i].ty, ctx, Ghost(fuel));
            let ghost out0 = out@;
            out.push(t);
            proof {
                assert(out@.drop_last() =~= out0);
                let prev = res_externs(env, c, v@.take(i as int), fuel).unwrap();
                let cur = res_type(env, c, v@[i as int].ty, fuel).unwrap();
                assert(models(out@) == models(out0).push(model(t)));
                assert(module_errs_m(self.errors@) =~= e0 + (prev.0 + cur.0));
            }
            i = i + 1;
        }
        proof {
            assert(v@.take(v@.len() as int) =~= v@);
        }
        out
    }
}


impl Validator {
    /// Resolves the named type `name` with arguments `args` in `ctx`.
    #[verifier::rlimit(80)]
    fn resolve_named_fuel(
        &mut self,
        modules: &[Module],
        name: &String,
        args: &Vec<TypeExpr>,
        ctx: &TypeResolveCtx,
        Ghost(fuel): Ghost<nat>,
    ) -> (r: ResolvedType)
        requires
            res_named(old(self).res_env(modules@), ctx_m(*ctx), name@, args@, fuel) is Some,
        ensures
            final(self).same_but_errors(old(self)),
            model(r) == res_named(old(self).res_env(modules@), ctx_m(*ctx), name@, args@, fuel).unwrap().1,
            module_errs_m(final(self).errors@) == module_errs_m(old(self).errors@) + res_named(
                old(self).res_env(modules@),
                ctx_m(*ctx),
                name@,
                args@,
                fuel,
            ).unwrap().0,
        decreases fuel, args, 1nat,
    {
        let ghost env = self.res_env(modules@);
        let ghost c = ctx_m(*ctx);
        let ghost e0 = module_errs_m(self.errors@);
        let ghost s0 = *self;
        let ghost res = res_named(env, c, name@, args@, fuel).unwrap();
        proof {
            assert(c.generics =~= ctx.generics@.map_values(|v: Vec<(String, TypeParamId)>| gscope_m(v@)));
            assert(c.subst =~= subst_m(ctx.local_subst@));
        }
        if args.len() == 0 {
            match subst_find(&ctx.local_subst, name) {
                Some(t) => {
                    assert(module_errs_m(self.errors@) =~= e0 + Seq::<ModuleErrM>::empty());
                    return t;
                },
                None => {},
            }
        }
        match generic_find(&ctx.generics, name) {
            Some(id) => {
                if args.len() > 0 {
                    let err = ValidationError::GenericArgsOnTypeParam {
                        module: self.module_name_of(ctx.module.0),
                        name: name.clone(),
                    };
                    self.errors.push(err);
                    proof {
                        assert(module_errs_m(self.errors@) =~= e0 + seq![module_err_m(err)]);
                    }
                    return ResolvedType::Null;
                } else {
                    assert(module_errs_m(self.errors@) =~= e0 + Seq::<ModuleErrM>::empty());
                    return ResolvedType::TypeParam(id);
                }
            },
            None => {},
        }
        match self.lookup_in_scope(ctx.module, name) {
            None => {
                let err = ValidationError::UnknownType { module: self.module_name_of(ctx.module.0), name: name.clone() };
                self.errors.push(err);
                proof {
                    assert(module_errs_m(self.errors@) =~= e0 + seq![module_err_m(err)]);
                }
                ResolvedType::Null
            },
            Some(ScopeEntry::Function(_)) => {
                let err = ValidationError::ExpectedTypeFoundFunction {
                    module: self.module_name_of(ctx.module.0),
                    name: name.clone(),
                };
                self.errors.push(err);
                proof {
                    assert(module_errs_m(self.errors@) =~= e0 + seq![module_err_m(err)]);
                }
                ResolvedType::Null
            },
            Some(ScopeEntry::Type(id)) => {
                let resolved = self.resolve_types_fuel(modules, args, ctx, Ghost(fuel));
                let ghost ea = res_types(env, c, args@, fuel).unwrap().0;
                let ghost ts = res_types(env, c, args@, fuel).unwrap().1;
                let si = self.struct_index(id.0);
                let arity: usize = match si {
                    Some(k) => self.hir.structs[k].type_params.len(),
                    None => match self.iface_index(id.0) {
                        Some(k) => self.hir.interfaces[k].type_params.len(),
                        None => {
                            return ResolvedType::Null;
                        },
                    },
                };
                proof {
                    lemma_models(resolved@);
                }
                if resolved.len() != arity {
                    let err = ValidationError::GenericArityMismatch {
                        module: self.module_name_of(ctx.module.0),
                        name: name.clone(),
                        expected: arity,
                        actual: resolved.len(),
                    };
                    let ghost b = module_errs_m(self.errors@);
                    assert(b == e0 + ea);
                    self.errors.push(err);
                    proof {
                        assert(module_errs_m(self.errors@) =~= b.push(module_err_m(err)));
                        assert(module_errs_m(self.errors@) =~= e0 + ea.push(module_err_m(err)));
                    }
                    return ResolvedType::Null;
                }
                let ghost s1 = *self;
                let mut k: usize = 0;
                proof {
                    assert(ts.take(0) =~= Seq::<TypeModel>::empty());
                    assert(module_errs_m(self.errors@) =~= e0 + ea + extern_arg_errs(env, ts.take(0)));
                }
                while k < resolved.len()
                    invariant
                        k <= resolved@.len(),
                        self.same_but_errors(&s1),
                        s1.same_but_errors(old(self)),
                        env == old(self).res_env(modules@),
                        models(resolved@) == ts,
                        ts.len() == resolved@.len(),
                        module_errs_m(self.errors@) == e0 + ea + extern_arg_errs(env, ts.take(k as int)),
                    decreases resolved@.len() - k,
                {
                    proof {
                        lemma_models(resolved@);
                        assert(ts.take(k as int + 1).drop_last() =~= ts.take(k as int));
                        assert(ts.take(k as int + 1).last() == model(resolved@[k as int]));
                    }
                    let ghost before = module_errs_m(self.errors@);
                    match &resolved[k] {
                        ResolvedType::Struct(aid, _) => match self.struct_index(aid.0) {
                            Some(j) => {
                                if self.hir.structs[j].is_extern {
                                    let err = ValidationError::ExternStructAsGenericArg {
                                        module: self.module_name_of(self.hir.structs[j].module.0),
                                        name: self.hir.structs[j].name.clone(),
                                    };
                                    self.errors.push(err);
                                    proof {
                                        assert(module_errs_m(self.errors@) =~= before + seq![module_err_m(err)]);
                                    }
                                } else {
                                    assert(module_errs_m(self.errors@) =~= before + Seq::<ModuleErrM>::empty());
                                }
                            },
                            None => {
                                assert(module_errs_m(self.errors@) =~= before + Seq::<ModuleErrM>::empty());
                            },
                        },
                        _ => {
                            assert(module_errs_m(self.errors@) =~= before + Seq::<ModuleErrM>::empty());
                        },
                    }
                    k = k + 1;
                }
                proof {
                    assert(ts.take(ts.len() as int) =~= ts);
                    assert(e0 + ea + extern_arg_errs(env, ts) =~= e0 + (ea + extern_arg_errs(env, ts)));
                }
                if si.is_some() {
                    ResolvedType::Struct(id, resolved)
                } else {
                    ResolvedType::Interface(id, resolved)
                }
            },
            Some(ScopeEntry::Alias { source, name: an }) => {
                let (mi, ii) = match self.alias_find(source.0, &an) {
                    Some(p) => p,
                    None => {
                        assert(module_errs_m(self.errors@) =~= e0 + Seq::<ModuleErrM>::empty());
                        return ResolvedType::Null;
                    },
                };
                if mi >= modules.len() || ii >= modules[mi].program.items.len() {
                    assert(module_errs_m(self.errors@) =~= e0 + Seq::<ModuleErrM>::empty());
                    return ResolvedType::Null;
                }
                match &modules[mi].program.items[ii].kind {
                    ItemKind::TypeAlias(d) => {
                        if d.generics.len() != args.len() {
                            let err = ValidationError::GenericArityMismatch {
                                module: self.module_name_of(ctx.module.0),
                                name: an,
                                expected: d.generics.len(),
                                actual: args.len(),
                            };
                            self.errors.push(err);
                            proof {
                                assert(module_errs_m(self.errors@) =~= e0 + seq![module_err_m(err)]);
                            }
                            return ResolvedType::Null;
                        }
                        let resolved = self.resolve_types_fuel(modules, args, ctx, Ghost(fuel));
                        let ghost ea = res_types(env, c, args@, fuel).unwrap().0;
                        let ghost ts = res_types(env, c, args@, fuel).unwrap().1;
                        proof {
                            lemma_models(resolved@);
                            lemma_res_types_len(env, c, args@, fuel);
                        }
                        let mut local_subst: Vec<(String, ResolvedType)> = Vec::new();
                        let mut k: usize = 0;
                        while k < d.generics.len()
                            invariant
                                k <= d.generics@.len(),
                                d.generics@.len() == resolved@.len(),
                                models(resolved@) == ts,
                                ts.len() == resolved@.len(),
                                local_subst@.len() == k,
                                forall|j: int|
                                    0 <= j < k ==> #[trigger] subst_m(local_subst@)[j] == (
                                        d.generics@[j].name@,
                                        ts[j],
                                    ),
                            decreases d.generics@.len() - k,
                        {
                            let ghost ls0 = local_subst@;
                            local_subst.push((d.generics[k].name.clone(), resolved[k].clone()));
                            proof {
                                lemma_models(resolved@);
                                assert(local_subst@ == ls0.push(local_subst@[k as int]));
                                assert forall|j: int| 0 <= j < k implies #[trigger] subst_m(local_subst@)[j] == subst_m(ls0)[j] by {
                                    assert(local_subst@[j] == ls0[j]);
                                }
                                assert(subst_m(local_subst@)[k as int] == (d.generics@[k as int].name@, model(resolved@[k as int])));
                            }
                            k = k + 1;
                        }
                        let actx = TypeResolveCtx {
                            module: source,
                            generics: Vec::new(),
                            local_subst,
                            allow_pointer: false,
                        };
                        proof {
                            assert(subst_m(actx.local_subst@) =~= alias_subst(d.generics@, ts));
                            assert(ctx_m(actx).generics =~= Seq::<Seq<(Seq<char>, nat)>>::empty());
                            assert(ctx_m(actx) == (CtxM {
                                module: source.0 as nat,
                                generics: Seq::empty(),
                                subst: alias_subst(d.generics@, ts),
                                allow_pointer: false,
                            }));
                        }
                        let ghost e1 = module_errs_m(self.errors@);
                        let t = self.resolve_type_fuel(modules, &d.ty, &actx, Ghost((fuel - 1) as nat));
                        proof {
                            let e2 = res_type(env, ctx_m(actx), d.ty, (fuel - 1) as nat).unwrap().0;
                            assert(module_errs_m(self.errors@) =~= e0 + (ea + e2));
                        }
                        t
                    },
                    _ => {
                        assert(module_errs_m(self.errors@) =~= e0 + Seq::<ModuleErrM>::empty());
                        ResolvedType::Null
                    },
                }
            },
        }
    }
}


proof fn lemma_res_types_len(env: ResEnv, ctx: CtxM, s: Seq<TypeExpr>, fuel: nat)
    requires
        res_types(env, ctx, s, fuel) is Some,
    ensures
        res_types(env, ctx, s, fuel).unwrap().1.len() == s.len(),
    decreases s.len(),
{
    if s.len() > 0 {
        lemma_res_types_len(env, ctx, s.drop_last(), fuel);
    }
}


/// What resolving `t` in `ctx` gives (the errors reported, in order, and
/// the resolved type), where alias expansion comes to an end.
pub open spec fn resolves(env: ResEnv, ctx: CtxM, t: TypeExpr) -> Option<(Seq<ModuleErrM>, TypeModel)> {
    if exists|f: nat| res_type(env, ctx, t, f) is Some {
        res_type(env, ctx, t, choose|f: nat| res_type(env, ctx, t, f) is Some)
    } else {
        None
    }
}

impl Validator {
    /// Resolves the type expression `expr` in `ctx` against the names that
    /// registration recorded: a primitive is itself; a name is an alias
    /// parameter being expanded, else a type parameter of the innermost
    /// generic scope that has it, else what the module's scope (its own
    /// names, then its glob imports) maps it to. A struct or interface
    /// takes its resolved arguments, which must match its arity and must
    /// not be extern structs; a type alias has its body resolved in its own
    /// module with its parameters bound to the arguments; a function name,
    /// an unknown name or type arguments on a type parameter are errors. A
    /// pointer type is allowed only where `ctx` allows it. Errors are added
    /// in order; nothing else changes. Alias expansion must come to an end.
    pub fn resolve_type_expr(&mut self, modules: &[Module], expr: &TypeExpr, ctx: &TypeResolveCtx) -> (r: ResolvedType)
        requires
            resolves(old(self).res_env(modules@), ctx_m(*ctx), *expr) is Some,
        ensures
            final(self).wf() == old(self).wf(),
            final(self)@ == (RegistryM { errs: final(self).names_view().errs, ..old(self)@ }),
            final(self).names_view() == (NamesM { errs: final(self).names_view().errs, ..old(self).names_view() }),
            final(self).res_env(modules@) == old(self).res_env(modules@),
            final(self).tparams_view() == old(self).tparams_view(),
            final(self).sigs_view() == old(self).sigs_view(),
            final(self).same_but_errors(old(self)),
            model(r) == resolves(old(self).res_env(modules@), ctx_m(*ctx), *expr).unwrap().1,
            final(self).names_view().errs == old(self).names_view().errs + resolves(
                old(self).res_env(modules@),
                ctx_m(*ctx),
                *expr,
            ).unwrap().0,
    {
        let ghost f = choose|f: nat| res_type(self.res_env(modules@), ctx_m(*ctx), *expr, f) is Some;
        self.resolve_type_fuel(modules, expr, ctx, Ghost(f))
    }
}


/// Minting the type parameters of a generic list named `scope` in order: a
/// name already in the list is reported; any other gets the next type
/// parameter id, is recorded with no bounds, and enters the scope. The
/// result: errors, next id, recorded parameters (id, name), the scope.
pub open spec fn mint_spec(
    errs: Seq<ModuleErrM>,
    next: nat,
    tps: Seq<(nat, Seq<char>, Seq<nat>)>,
    scope: Seq<char>,
    gs: Seq<Seq<char>>,
) -> (Seq<ModuleErrM>, nat, Seq<(nat, Seq<char>, Seq<nat>)>, Seq<(Seq<char>, nat)>)
    decreases gs.len(),
{
    if gs.len() == 0 {
        (errs, next, tps, Seq::empty())
    } else {
        let (e, n, t, sc) = mint_spec(errs, next, tps, scope, gs.drop_last());
        let g = gs.last();
        if gs.drop_last().contains(g) {
            (e.push(ModuleErrM::DuplicateGenericParam(scope, g)), n, t, sc)
        } else {
            (e, n + 1, t.push((n, g, Seq::empty())), sc.push((g, n)))
        }
    }
}

impl Validator {
    /// The type parameters recorded in the HIR: id, name, bounds.
    pub closed spec fn tparams_view(&self) -> Seq<(nat, Seq<char>, Seq<nat>)> {
        self.hir.type_params@.map_values(
            |t: TypeParamInfo| (t.id.0 as nat, t.name@, t.bounds@.map_values(|b: TypeId| b.0 as nat)),
        )
    }

    /// The next type parameter id.
    pub closed spec fn next_tp(&self) -> nat {
        self.next_tp_id as nat
    }

    /// Gives each parameter of the generic list `generics` (named
    /// `scope_name` in reports) a fresh type parameter id, recorded in the
    /// HIR with no bounds, and returns the scope of (name, id) in order; a
    /// name repeated in the list is reported and skipped.
    pub fn mint_generics(&mut self, generics: &[GenericParam], scope_name: String) -> (r: Vec<(String, TypeParamId)>)
        requires
            old(self).next_tp() + generics@.len() < u32::MAX,
        ensures
            final(self).wf() == old(self).wf(),
            final(self)@ == (RegistryM { errs: final(self).names_view().errs, ..old(self)@ }),
            final(self).names_view() == (NamesM { errs: final(self).names_view().errs, ..old(self).names_view() }),
            (final(self).names_view().errs, final(self).next_tp(), final(self).tparams_view(), gscope_m(r@)) == mint_spec(
                old(self).names_view().errs,
                old(self).next_tp(),
                old(self).tparams_view(),
                scope_name@,
                generics@.map_values(|g: GenericParam| g.name@),
            ),
    {
        let ghost gs = generics@.map_values(|g: GenericParam| g.name@);
        let ghost e0 = self.names_view().errs;
        let ghost n0 = self.next_tp();
        let ghost t0 = self.tparams_view();
        let ghost v0 = self.names_view();
        let ghost r0 = self@;
        let mut scope: Vec<(String, TypeParamId)> = Vec::new();
        let mut seen: Vec<String> = Vec::new();
        let mut i: usize = 0;
        proof {
            assert(gs.take(0) =~= Seq::<Seq<char>>::empty());
            assert(gscope_m(scope@) =~= Seq::<(Seq<char>, nat)>::empty());
        }
        while i < generics.len()
            invariant
                i <= generics@.len(),
                gs == generics@.map_values(|g: GenericParam| g.name@),
                seen@.map_values(|n: String| n@) == gs.take(i as int),
                n0 + generics@.len() < u32::MAX,
                self.next_tp() <= n0 + i,
                self@ == (RegistryM { errs: self.names_view().errs, ..r0 }),
                self.names_view() == (NamesM { errs: self.names_view().errs, ..v0 }),
                self.wf() == old(self).wf(),
                (self.names_view().errs, self.next_tp(), self.tparams_view(), gscope_m(scope@)) == mint_spec(
                    e0,
                    n0,
                    t0,
                    scope_name@,
                    gs.take(i as int),
                ),
            decreases generics@.len() - i,
        {
            proof {
                assert(gs.take(i as int + 1).drop_last() =~= gs.take(i as int));
                assert(gs.take(i as int + 1).last() == generics@[i as int].name@);
            }
            let name = generics[i].name.clone();
            if string_in(&seen, &name) {
                let err = ValidationError::DuplicateGenericParam { scope: scope_name.clone(), name: name.clone() };
                let ghost b = self.names_view().errs;
                self.errors.push(err);
                proof {
                    assert(self.names_view().errs =~= b.push(module_err_m(err)));
                }
            } else {
                let id = TypeParamId(self.next_tp_id);
                self.next_tp_id = self.next_tp_id + 1;
                let ghost tb = self.tparams_view();
                let ghost sb = gscope_m(scope@);
                self.hir.type_params.push(TypeParamInfo { id, name: name.clone(), bounds: Vec::new() });
                scope.push((name.clone(), id));
                proof {
                    let last = self.hir.type_params@[self.hir.type_params@.len() - 1];
                    assert(last.bounds@.map_values(|b: TypeId| b.0 as nat) =~= Seq::<nat>::empty());
                    assert(self.tparams_view() =~= tb.push((id.0 as nat, name@, Seq::<nat>::empty())));
                    assert(gscope_m(scope@) =~= sb.push((name@, id.0 as nat)));
                    assert(self.names_view() =~= (NamesM { errs: self.names_view().errs, ..v0 }));
                }
            }
            let ghost s0 = seen@;
            seen.push(name);
            proof {
                assert(seen@.map_values(|n: String| n@) =~= s0.map_values(|n: String| n@).push(generics@[i as int].name@));
            }
            i = i + 1;
        }
        proof {
            assert(gs.take(generics@.len() as int) =~= gs);
        }
        scope
    }
}


/// Resolving an `implements` list in order: each entry that resolves to an
/// interface is kept with its arguments; one that fails to resolve is
/// dropped (its errors stand); any other is reported as not an interface.
pub open spec fn implements_spec(env: ResEnv, ctx: CtxM, list: Seq<TypeExpr>, label: Seq<char>) -> Option<
    (Seq<ModuleErrM>, Seq<(nat, Seq<TypeModel>)>),
>
    decreases list.len(),
{
    if list.len() == 0 {
        Some((Seq::empty(), Seq::empty()))
    } else {
        match implements_spec(env, ctx, list.drop_last(), label) {
            None => None,
            Some((e, out)) => match resolves(env, ctx, list.last()) {
                None => None,
                Some((e2, t)) => match t {
                    TypeModel::Interface(id, args) => Some((e + e2, out.push((id as nat, args)))),
                    TypeModel::Null => Some((e + e2, out)),
                    _ => Some(((e + e2).push(ModuleErrM::ImplementsNotInterface(label)), out)),
                },
            },
        }
    }
}

/// The context of a type's own generic scope in `module`.
pub open spec fn scope_ctx(module: nat, scope: Seq<(Seq<char>, nat)>) -> CtxM {
    CtxM { module, generics: seq![scope], subst: Seq::empty(), allow_pointer: false }
}

proof fn lemma_implements_prefix(env: ResEnv, ctx: CtxM, s: Seq<TypeExpr>, label: Seq<char>, n: int)
    requires
        0 <= n <= s.len(),
        implements_spec(env, ctx, s, label) is Some,
    ensures
        implements_spec(env, ctx, s.take(n), label) is Some,
    decreases s.len() - n,
{
    if n < s.len() {
        lemma_implements_prefix(env, ctx, s, label, n + 1);
        assert(s.take(n + 1).drop_last() =~= s.take(n));
    } else {
        assert(s.take(n) =~= s);
    }
}

impl Validator {
    /// Resolves the `implements` list of a type labelled `type_label`,
    /// declared in `module` with the generic scope `scope`: the interfaces
    /// it names, with their arguments, in order; an entry that is no
    /// interface is reported.
    pub fn resolve_implements_list(
        &mut self,
        modules: &[Module],
        module: ModuleId,
        list: &[TypeExpr],
        scope: Vec<(String, TypeParamId)>,
        type_label: &String,
    ) -> (r: Vec<(TypeId, Vec<ResolvedType>)>)
        requires
            implements_spec(
                old(self).res_env(modules@),
                scope_ctx(module.0 as nat, gscope_m(scope@)),
                list@,
                type_label@,
            ) is Some,
        ensures
            final(self).wf() == old(self).wf(),
            final(self)@ == (RegistryM { errs: final(self).names_view().errs, ..old(self)@ }),
            final(self).names_view() == (NamesM { errs: final(self).names_view().errs, ..old(self).names_view() }),
            final(self).res_env(modules@) == old(self).res_env(modules@),
            ({
                let (e, out) = implements_spec(
                    old(self).res_env(modules@),
                    scope_ctx(module.0 as nat, gscope_m(scope@)),
                    list@,
                    type_label@,
                ).unwrap();
                &&& final(self).names_view().errs == old(self).names_view().errs + e
                &&& r@.map_values(|p: (TypeId, Vec<ResolvedType>)| (p.0.0 as nat, models(p.1@))) == out
            }),
    {
        let ghost env = self.res_env(modules@);
        let ghost e0 = self.names_view().errs;
        let ghost r0 = self@;
        let ghost v0 = self.names_view();
        let ghost w0 = self.wf();
        let ctx = TypeResolveCtx { module, generics: vec![scope], local_subst: Vec::new(), allow_pointer: false };
        let ghost c = ctx_m(ctx);
        proof {
            assert(ctx_m(ctx).generics =~= seq![gscope_m(ctx.generics@[0]@)]);
            assert(ctx_m(ctx).subst =~= Seq::<(Seq<char>, TypeModel)>::empty());
        }
        assert(c == scope_ctx(module.0 as nat, gscope_m(ctx.generics@[0]@)));
        let mut out: Vec<(TypeId, Vec<ResolvedType>)> = Vec::new();
        let mut i: usize = 0;
        proof {
            assert(list@.take(0) =~= Seq::<TypeExpr>::empty());
            assert(self.names_view().errs =~= e0 + Seq::<ModuleErrM>::empty());
        }
        while i < list.len()
            invariant
                i <= list@.len(),
                env == old(self).res_env(modules@),
                self.res_env(modules@) == env,
                c == ctx_m(ctx),
                implements_spec(env, c, list@, type_label@) is Some,
                implements_spec(env, c, list@.take(i as int), type_label@) is Some,
                self.wf() == w0,
                self@ == (RegistryM { errs: self.names_view().errs, ..r0 }),
                self.names_view() == (NamesM { errs: self.names_view().errs, ..v0 }),
                self.names_view().errs == e0 + implements_spec(env, c, list@.take(i as int), type_label@).unwrap().0,
                out@.map_values(|p: (TypeId, Vec<ResolvedType>)| (p.0.0 as nat, models(p.1@))) == implements_spec(
                    env,
                    c,
                    list@.take(i as int),
                    type_label@,
                ).unwrap().1,
            decreases list@.len() - i,
        {
            proof {
                lemma_implements_prefix(env, c, list@, type_label@, i as int + 1);
                assert(list@.take(i as int + 1).drop_last() =~= list@.take(i as int));
                assert(list@.take(i as int + 1).last() == list@[i as int]);
            }
            let ghost prev = implements_spec(env, c, list@.take(i as int), type_label@).unwrap();
            let ghost o0 = out@;
            let t = self.resolve_type_expr(modules, &list[i], &ctx);
            let ghost cur = resolves(env, c, list@[i as int]).unwrap();
            match t {
                ResolvedType::Interface(id, args) => {
                    out.push((id, args));
                    proof {
                        assert(out@.map_values(|p: (TypeId, Vec<ResolvedType>)| (p.0.0 as nat, models(p.1@))) =~= o0.map_values(
                            |p: (TypeId, Vec<ResolvedType>)| (p.0.0 as nat, models(p.1@)),
                        ).push((id.0 as nat, models(args@))));
                        assert(self.names_view().errs =~= e0 + (prev.0 + cur.0));
                    }
                },
                ResolvedType::Null => {
                    proof {
                        assert(self.names_view().errs =~= e0 + (prev.0 + cur.0));
                    }
                },
                _ => {
                    let err = ValidationError::ImplementsNotInterface { type_label: type_label.clone() };
                    let ghost b = self.names_view().errs;
                    let ghost sb = *self;
                    self.errors.push(err);
                    proof {
                        assert(self.hir == sb.hir && self.module_names == sb.module_names);
                        assert(self.pending_named_imports == sb.pending_named_imports);
                        assert(self.wf() == sb.wf());
                        assert(self.names_view().errs =~= b.push(module_err_m(err)));
                        assert(self.names_view().errs =~= e0 + (prev.0 + cur.0).push(ModuleErrM::ImplementsNotInterface(type_label@)));
                    }
                },
            }
            i = i + 1;
        }
        proof {
            assert(list@.take(list@.len() as int) =~= list@);
        }
        out
    }
}


/// Resolving the bounds of one type parameter `tp` in order: an interface
/// is kept; a bound that fails to resolve is dropped (its errors stand);
/// any other is reported.
pub open spec fn bound_ids_spec(env: ResEnv, ctx: CtxM, bounds: Seq<TypeExpr>, scope: Seq<char>, tp: Seq<char>) -> Option<
    (Seq<ModuleErrM>, Seq<nat>),
>
    decreases bounds.len(),
{
    if bounds.len() == 0 {
        Some((Seq::empty(), Seq::empty()))
    } else {
        match bound_ids_spec(env, ctx, bounds.drop_last(), scope, tp) {
            None => None,
            Some((e, ids)) => match resolves(env, ctx, bounds.last()) {
                None => None,
                Some((e2, t)) => match t {
                    TypeModel::Interface(id, _) => Some((e + e2, ids.push(id as nat))),
                    TypeModel::Null => Some((e + e2, ids)),
                    _ => Some(((e + e2).push(ModuleErrM::BoundNotInterface(scope, tp)), ids)),
                },
            },
        }
    }
}

/// The index of the first recorded type parameter with id `id`, or -1.
pub open spec fn tparam_index(tps: Seq<(nat, Seq<char>, Seq<nat>)>, id: nat) -> int
    decreases tps.len(),
{
    if tps.len() == 0 {
        -1
    } else if tparam_index(tps.drop_last(), id) >= 0 {
        tparam_index(tps.drop_last(), id)
    } else if tps.last().0 == id {
        tps.len() - 1
    } else {
        -1
    }
}

/// The recorded type parameters with the bounds of `id` set to `ids`.
pub open spec fn set_bounds(tps: Seq<(nat, Seq<char>, Seq<nat>)>, id: nat, ids: Seq<nat>) -> Seq<(nat, Seq<char>, Seq<nat>)> {
    let k = tparam_index(tps, id);
    if k < 0 {
        tps
    } else {
        tps.update(k, (tps[k].0, tps[k].1, ids))
    }
}

/// Resolving the bounds of a generic list in order: parameter `i` takes
/// the id at position `i` of `target` (none there: skipped), its bounds are
/// resolved and recorded on that id.
pub open spec fn bounds_spec(
    env: ResEnv,
    ctx: CtxM,
    gps: Seq<GenericParam>,
    target: Seq<(Seq<char>, nat)>,
    scope: Seq<char>,
    tps: Seq<(nat, Seq<char>, Seq<nat>)>,
) -> Option<(Seq<ModuleErrM>, Seq<(nat, Seq<char>, Seq<nat>)>)>
    decreases gps.len(),
{
    if gps.len() == 0 {
        Some((Seq::empty(), tps))
    } else {
        match bounds_spec(env, ctx, gps.drop_last(), target, scope, tps) {
            None => None,
            Some((e, t)) => {
                let i = gps.len() - 1;
                if i >= target.len() {
                    Some((e, t))
                } else {
                    match bound_ids_spec(env, ctx, gps.last().bounds@, scope, gps.last().name@) {
                        None => None,
                        Some((e2, ids)) => Some((e + e2, set_bounds(t, target[i].1, ids))),
                    }
                }
            },
        }
    }
}

proof fn lemma_bound_ids_prefix(env: ResEnv, ctx: CtxM, s: Seq<TypeExpr>, scope: Seq<char>, tp: Seq<char>, n: int)
    requires
        0 <= n <= s.len(),
        bound_ids_spec(env, ctx, s, scope, tp) is Some,
    ensures
        bound_ids_spec(env, ctx, s.take(n), scope, tp) is Some,
    decreases s.len() - n,
{
    if n < s.len() {
        lemma_bound_ids_prefix(env, ctx, s, scope, tp, n + 1);
        assert(s.take(n + 1).drop_last() =~= s.take(n));
    } else {
        assert(s.take(n) =~= s);
    }
}

proof fn lemma_bounds_prefix(
    env: ResEnv,
    ctx: CtxM,
    s: Seq<GenericParam>,
    target: Seq<(Seq<char>, nat)>,
    scope: Seq<char>,
    tps: Seq<(nat, Seq<char>, Seq<nat>)>,
    n: int,
)
    requires
        0 <= n <= s.len(),
        bounds_spec(env, ctx, s, target, scope, tps) is Some,
    ensures
        bounds_spec(env, ctx, s.take(n), target, scope, tps) is Some,
    decreases s.len() - n,
{
    if n < s.len() {
        lemma_bounds_prefix(env, ctx, s, target, scope, tps, n + 1);
        assert(s.take(n + 1).drop_last() =~= s.take(n));
    } else {
        assert(s.take(n) =~= s);
    }
}

proof fn lemma_tparam_index(tps: Seq<(nat, Seq<char>, Seq<nat>)>, id: nat)
    ensures
        -1 <= tparam_index(tps, id) < tps.len(),
        tparam_index(tps, id) >= 0 ==> tps[tparam_index(tps, id)].0 == id,
        tparam_index(tps, id) < 0 ==> forall|k: int| 0 <= k < tps.len() ==> (#[trigger] tps[k]).0 != id,
    decreases tps.len(),
{
    if tps.len() > 0 {
        lemma_tparam_index(tps.drop_last(), id);
        assert forall|k: int| 0 <= k < tps.len() - 1 implies #[trigger] tps[k] == tps.drop_last()[k] by {}
    }
}

impl Validator {
    /// The index of the first recorded type parameter with id `id`.
    fn tparam_find(&self, id: TypeParamId) -> (r: Option<usize>)
        ensures
            match r {
                Some(k) => k as int == tparam_index(self.tparams_view(), id.0 as nat),
                None => tparam_index(self.tparams_view(), id.0 as nat) < 0,
            },
    {
        let ghost m = self.tparams_view();
        let mut k: usize = 0;
        while k < self.hir.type_params.len()
            invariant
                k <= m.len(),
                m == self.tparams_view(),
                m.len() == self.hir.type_params@.len(),
                tparam_index(m.take(k as int), id.0 as nat) < 0,
            decreases m.len() - k,
        {
            assert(m.take(k as int + 1).drop_last() =~= m.take(k as int));
            if self.hir.type_params[k].id.0 == id.0 {
                proof {
                    lemma_tparam_index_prefix(m, id.0 as nat, k as int + 1);
                }
                return Some(k);
            }
            k = k + 1;
        }
        assert(m.take(k as int) =~= m);
        None
    }
}

proof fn lemma_tparam_index_prefix(m: Seq<(nat, Seq<char>, Seq<nat>)>, id: nat, n: int)
    requires
        0 <= n <= m.len(),
        tparam_index(m.take(n), id) >= 0,
    ensures
        tparam_index(m, id) == tparam_index(m.take(n), id),
    decreases m.len() - n,
{
    if n < m.len() {
        assert(m.take(n + 1).drop_last() =~= m.take(n));
        lemma_tparam_index_prefix(m, id, n + 1);
    } else {
        assert(m.take(n) =~= m);
    }
}


impl Validator {
    /// Resolves the bounds of the generic list `ast_params` of the scope
    /// named `scope_name` in `module`, with the generic scopes `generics` in
    /// view: parameter `i` takes the id at position `i` of `target_scope`
    /// (a parameter with none there is skipped), and its bounds, resolved in
    /// order, become that id's recorded bounds: the interfaces among them; a
    /// bound that is no interface is reported.
    pub fn resolve_generic_bounds_with_scope(
        &mut self,
        modules: &[Module],
        module: ModuleId,
        ast_params: &[GenericParam],
        generics: Vec<Vec<(String, TypeParamId)>>,
        target_scope: &[(String, TypeParamId)],
        scope_name: &String,
    )
        requires
            bounds_spec(
                old(self).res_env(modules@),
                CtxM {
                    module: module.0 as nat,
                    generics: generics@.map_values(|v: Vec<(String, TypeParamId)>| gscope_m(v@)),
                    subst: Seq::empty(),
                    allow_pointer: false,
                },
                ast_params@,
                gscope_m(target_scope@),
                scope_name@,
                old(self).tparams_view(),
            ) is Some,
        ensures
            final(self).wf() == old(self).wf(),
            final(self)@ == (RegistryM { errs: final(self).names_view().errs, ..old(self)@ }),
            final(self).names_view() == (NamesM { errs: final(self).names_view().errs, ..old(self).names_view() }),
            final(self).res_env(modules@) == old(self).res_env(modules@),
            ({
                let (e, t) = bounds_spec(
                    old(self).res_env(modules@),
                    CtxM {
                        module: module.0 as nat,
                        generics: generics@.map_values(|v: Vec<(String, TypeParamId)>| gscope_m(v@)),
                        subst: Seq::empty(),
                        allow_pointer: false,
                    },
                    ast_params@,
                    gscope_m(target_scope@),
                    scope_name@,
                    old(self).tparams_view(),
                ).unwrap();
                &&& final(self).names_view().errs == old(self).names_view().errs + e
                &&& final(self).tparams_view() == t
            }),
    {
        let ghost env = self.res_env(modules@);
        let ghost e0 = self.names_view().errs;
        let ghost t0 = self.tparams_view();
        let ghost r0 = self@;
        let ghost v0 = self.names_view();
        let ghost w0 = self.wf();
        let ghost target = gscope_m(target_scope@);
        let ghost gm = generics@.map_values(|v: Vec<(String, TypeParamId)>| gscope_m(v@));
        let ctx = TypeResolveCtx { module, generics, local_subst: Vec::new(), allow_pointer: false };
        let ghost c = ctx_m(ctx);
        proof {
            assert(ctx_m(ctx).subst =~= Seq::<(Seq<char>, TypeModel)>::empty());
            assert(ctx_m(ctx).generics =~= gm);
            assert(c == (CtxM { module: module.0 as nat, generics: gm, subst: Seq::empty(), allow_pointer: false }));
        }
        let mut i: usize = 0;
        proof {
            assert(ast_params@.take(0) =~= Seq::<GenericParam>::empty());
            assert(self.names_view().errs =~= e0 + Seq::<ModuleErrM>::empty());
        }
        while i < ast_params.len()
            invariant
                i <= ast_params@.len(),
                env == old(self).res_env(modules@),
                self.res_env(modules@) == env,
                c == ctx_m(ctx),
                target == gscope_m(target_scope@),
                bounds_spec(env, c, ast_params@, target, scope_name@, t0) is Some,
                bounds_spec(env, c, ast_params@.take(i as int), target, scope_name@, t0) is Some,
                self.wf() == w0,
                self@ == (RegistryM { errs: self.names_view().errs, ..r0 }),
                self.names_view() == (NamesM { errs: self.names_view().errs, ..v0 }),
                self.names_view().errs == e0 + bounds_spec(env, c, ast_params@.take(i as int), target, scope_name@, t0).unwrap().0,
                self.tparams_view() == bounds_spec(env, c, ast_params@.take(i as int), target, scope_name@, t0).unwrap().1,
            decreases ast_params@.len() - i,
        {
            proof {
                lemma_bounds_prefix(env, c, ast_params@, target, scope_name@, t0, i as int + 1);
                assert(ast_params@.take(i as int + 1).drop_last() =~= ast_params@.take(i as int));
                assert(ast_params@.take(i as int + 1).last() == ast_params@[i as int]);
            }
            let ghost prev = bounds_spec(env, c, ast_params@.take(i as int), target, scope_name@, t0).unwrap();
            if i < target_scope.len() {
                let tp_id = target_scope[i].1;
                let gp = &ast_params[i];
                let ghost bs = gp.bounds@;
                let ghost eb = self.names_view().errs;
                let mut ids: Vec<TypeId> = Vec::new();
                let mut j: usize = 0;
                proof {
                    assert(bs.take(0) =~= Seq::<TypeExpr>::empty());
                    assert(self.names_view().errs =~= eb + Seq::<ModuleErrM>::empty());
                    assert(ids@.map_values(|b: TypeId| b.0 as nat) =~= Seq::<nat>::empty());
                }
                while j < gp.bounds.len()
                    invariant
                        j <= bs.len(),
                        bs == gp.bounds@,
                        env == old(self).res_env(modules@),
                        self.res_env(modules@) == env,
                        c == ctx_m(ctx),
                        bound_ids_spec(env, c, bs, scope_name@, gp.name@) is Some,
                        bound_ids_spec(env, c, bs.take(j as int), scope_name@, gp.name@) is Some,
                        self.wf() == w0,
                        self@ == (RegistryM { errs: self.names_view().errs, ..r0 }),
                        self.names_view() == (NamesM { errs: self.names_view().errs, ..v0 }),
                        self.tparams_view() == prev.1,
                        self.names_view().errs == eb + bound_ids_spec(env, c, bs.take(j as int), scope_name@, gp.name@).unwrap().0,
                        ids@.map_values(|b: TypeId| b.0 as nat) == bound_ids_spec(env, c, bs.take(j as int), scope_name@, gp.name@).unwrap().1,
                    decreases bs.len() - j,
                {
                    proof {
                        lemma_bound_ids_prefix(env, c, bs, scope_name@, gp.name@, j as int + 1);
                        assert(bs.take(j as int + 1).drop_last() =~= bs.take(j as int));
                        assert(bs.take(j as int + 1).last() == bs[j as int]);
                    }
                    let ghost pb = bound_ids_spec(env, c, bs.take(j as int), scope_name@, gp.name@).unwrap();
                    let ghost i0 = ids@;
                    let t = self.resolve_type_expr(modules, &gp.bounds[j], &ctx);
                    let ghost cur = resolves(env, c, bs[j as int]).unwrap();
                    match t {
                        ResolvedType::Interface(id, _) => {
                            ids.push(id);
                            proof {
                                assert(ids@.map_values(|b: TypeId| b.0 as nat) =~= i0.map_values(|b: TypeId| b.0 as nat).push(id.0 as nat));
                                assert(self.names_view().errs =~= eb + (pb.0 + cur.0));
                            }
                        },
                        ResolvedType::Null => {
                            proof {
                                assert(self.names_view().errs =~= eb + (pb.0 + cur.0));
                            }
                        },
                        _ => {
                            let err = ValidationError::BoundNotInterface { scope: scope_name.clone(), type_param: gp.name.clone() };
                            let ghost b = self.names_view().errs;
                            let ghost sb = *self;
                            self.errors.push(err);
                            proof {
                                assert(self.hir == sb.hir && self.module_names == sb.module_names);
                                assert(self.pending_named_imports == sb.pending_named_imports);
                                assert(self.wf() == sb.wf());
                                assert(self.tparams_view() == sb.tparams_view());
                                assert(self.names_view().errs =~= b.push(module_err_m(err)));
                                assert(self.names_view().errs =~= eb + (pb.0 + cur.0).push(
                                    ModuleErrM::BoundNotInterface(scope_name@, gp.name@),
                                ));
                            }
                        },
                    }
                    j = j + 1;
                }
                proof {
                    assert(bs.take(bs.len() as int) =~= bs);
                    assert(target[i as int].1 == tp_id.0 as nat);
                }
                let ghost idsm = ids@.map_values(|b: TypeId| b.0 as nat);
                let ghost tv = self.tparams_view();
                match self.tparam_find(tp_id) {
                    Some(k) => {
                        proof {
                            lemma_tparam_index(tv, tp_id.0 as nat);
                        }
                        let ghost tps = self.hir.type_params@;
                        let ghost sb = *self;
                        let mut info = self.hir.type_params.remove(k);
                        info.bounds = ids;
                        self.hir.type_params.insert(k, info);
                        proof {
                            assert(self.hir.type_params@ =~= tps.update(k as int, info));
                            assert(self.tparams_view() =~= set_bounds(tv, tp_id.0 as nat, idsm));
                            assert(self.hir.modules == sb.hir.modules);
                            assert(self.module_names == sb.module_names);
                            assert(self.pending_named_imports == sb.pending_named_imports);
                            assert(self.wf() == sb.wf());
                            assert(self@ =~= sb@);
                            assert(self.names_view() =~= sb.names_view());
                            assert(self.res_env(modules@) =~= sb.res_env(modules@));
                        }
                    },
                    None => {},
                }
                proof {
                    assert(self.names_view().errs =~= e0 + (prev.0 + bound_ids_spec(env, c, bs, scope_name@, gp.name@).unwrap().0));
                }
            }
            i = i + 1;
        }
        proof {
            assert(ast_params@.take(ast_params@.len() as int) =~= ast_params@);
        }
    }
}


/// Copies a generic scope.
fn clone_scope(s: &Vec<(String, TypeParamId)>) -> (r: Vec<(String, TypeParamId)>)
    ensures
        gscope_m(r@) == gscope_m(s@),
{
    let mut out: Vec<(String, TypeParamId)> = Vec::new();
    let mut i: usize = 0;
    while i < s.len()
        invariant
            i <= s@.len(),
            gscope_m(out@) == gscope_m(s@).take(i as int),
        decreases s@.len() - i,
    {
        let ghost o0 = out@;
        out.push((s[i].0.clone(), s[i].1));
        proof {
            assert(gscope_m(out@) =~= gscope_m(o0).push((s@[i as int].0@, s@[i as int].1.0 as nat)));
            assert(gscope_m(s@).take(i as int + 1) =~= gscope_m(s@).take(i as int).push(gscope_m(s@)[i as int]));
        }
        i = i + 1;
    }
    assert(gscope_m(s@).take(s@.len() as int) =~= gscope_m(s@));
    out
}

impl Validator {
    /// Resolves the bounds of a generic list that is its own only scope in
    /// view (the type parameters of a struct or an interface): bounds may
    /// name the list's other parameters.
    pub fn resolve_generic_bounds(
        &mut self,
        modules: &[Module],
        module: ModuleId,
        ast_params: &[GenericParam],
        scope: Vec<(String, TypeParamId)>,
        scope_name: &String,
    )
        requires
            bounds_spec(
                old(self).res_env(modules@),
                CtxM { module: module.0 as nat, generics: seq![gscope_m(scope@)], subst: Seq::empty(), allow_pointer: false },
                ast_params@,
                gscope_m(scope@),
                scope_name@,
                old(self).tparams_view(),
            ) is Some,
        ensures
            final(self).wf() == old(self).wf(),
            final(self)@ == (RegistryM { errs: final(self).names_view().errs, ..old(self)@ }),
            final(self).names_view() == (NamesM { errs: final(self).names_view().errs, ..old(self).names_view() }),
            final(self).res_env(modules@) == old(self).res_env(modules@),
            ({
                let (e, t) = bounds_spec(
                    old(self).res_env(modules@),
                    CtxM { module: module.0 as nat, generics: seq![gscope_m(scope@)], subst: Seq::empty(), allow_pointer: false },
                    ast_params@,
                    gscope_m(scope@),
                    scope_name@,
                    old(self).tparams_view(),
                ).unwrap();
                &&& final(self).names_view().errs == old(self).names_view().errs + e
                &&& final(self).tparams_view() == t
            }),
    {
        let copy = clone_scope(&scope);
        let generics = vec![copy];
        proof {
            assert(generics@.map_values(|v: Vec<(String, TypeParamId)>| gscope_m(v@)) =~= seq![gscope_m(scope@)]);
        }
        self.resolve_generic_bounds_with_scope(modules, module, ast_params, generics, &scope, scope_name);
    }
}


/// Resolving the parameters of a function labelled `label` in order: a name
/// already among the parameters is reported and skipped; a pointer
/// parameter outside an extern function is reported (and still resolved);
/// each other parameter keeps its name, resolved type and pointer flag.
pub open spec fn params_spec(env: ResEnv, ctx: CtxM, ps: Seq<ParamDecl>, label: Seq<char>, is_extern: bool) -> Option<
    (Seq<ModuleErrM>, Seq<(Seq<char>, TypeModel, bool)>),
>
    decreases ps.len(),
{
    if ps.len() == 0 {
        Some((Seq::empty(), Seq::empty()))
    } else {
        match params_spec(env, ctx, ps.drop_last(), label, is_extern) {
            None => None,
            Some((e, out)) => {
                let p = ps.last();
                if ps.drop_last().map_values(|q: ParamDecl| q.name@).contains(p.name@) {
                    Some((e.push(ModuleErrM::DuplicateParam(label, p.name@)), out))
                } else {
                    let e1 = if p.is_pointer && !is_extern {
                        e.push(ModuleErrM::PointerOutsideExtern(label + "("@ + p.name@ + ")"@))
                    } else {
                        e
                    };
                    match resolves(env, ctx, p.ty) {
                        None => None,
                        Some((e2, t)) => Some((e1 + e2, out.push((p.name@, t, p.is_pointer)))),
                    }
                }
            },
        }
    }
}

/// Resolving a return type: none stands for `null`.
pub open spec fn ret_spec(env: ResEnv, ctx: CtxM, r: Option<TypeExpr>) -> Option<(Seq<ModuleErrM>, TypeModel)> {
    match r {
        Some(t) => resolves(env, ctx, t),
        None => Some((Seq::empty(), TypeModel::Null)),
    }
}

/// The model of a function's parameters.
pub open spec fn hparams_m(ps: Seq<HirParam>) -> Seq<(Seq<char>, TypeModel, bool)> {
    ps.map_values(|p: HirParam| (p.name@, model(p.ty), p.is_pointer))
}

/// The index of the first function with id `id`, or -1.
pub open spec fn fn_index(fns: Seq<HirFunction>, id: nat) -> int
    decreases fns.len(),
{
    if fns.len() == 0 {
        -1
    } else if fn_index(fns.drop_last(), id) >= 0 {
        fn_index(fns.drop_last(), id)
    } else if fns.last().id.0 == id {
        fns.len() - 1
    } else {
        -1
    }
}

proof fn lemma_fn_index(fns: Seq<HirFunction>, id: nat)
    ensures
        -1 <= fn_index(fns, id) < fns.len(),
        fn_index(fns, id) >= 0 ==> fns[fn_index(fns, id)].id.0 == id,
    decreases fns.len(),
{
    if fns.len() > 0 {
        lemma_fn_index(fns.drop_last(), id);
    }
}

proof fn lemma_fn_index_prefix(m: Seq<HirFunction>, id: nat, n: int)
    requires
        0 <= n <= m.len(),
        fn_index(m.take(n), id) >= 0,
    ensures
        fn_index(m, id) == fn_index(m.take(n), id),
    decreases m.len() - n,
{
    if n < m.len() {
        assert(m.take(n + 1).drop_last() =~= m.take(n));
        lemma_fn_index_prefix(m, id, n + 1);
    } else {
        assert(m.take(n) =~= m);
    }
}

proof fn lemma_params_prefix(env: ResEnv, ctx: CtxM, s: Seq<ParamDecl>, label: Seq<char>, x: bool, n: int)
    requires
        0 <= n <= s.len(),
        params_spec(env, ctx, s, label, x) is Some,
    ensures
        params_spec(env, ctx, s.take(n), label, x) is Some,
    decreases s.len() - n,
{
    if n < s.len() {
        lemma_params_prefix(env, ctx, s, label, x, n + 1);
        assert(s.take(n + 1).drop_last() =~= s.take(n));
    } else {
        assert(s.take(n) =~= s);
    }
}

impl Validator {
    /// The signatures recorded in the HIR: id, parameters, return type.
    pub closed spec fn sigs_view(&self) -> Seq<(nat, Seq<(Seq<char>, TypeModel, bool)>, TypeModel)> {
        self.hir.functions@.map_values(|f: HirFunction| (f.id.0 as nat, hparams_m(f.params@), model(f.return_type)))
    }

    /// Where the first function with id `id` stands in the HIR, or -1.
    pub closed spec fn fn_slot(&self, id: nat) -> int {
        fn_index(self.hir.functions@, id)
    }

    /// The index of the first function with id `id`.
    fn fn_find(&self, id: FnId) -> (r: Option<usize>)
        ensures
            match r {
                Some(k) => k as int == fn_index(self.hir.functions@, id.0 as nat),
                None => fn_index(self.hir.functions@, id.0 as nat) < 0,
            },
    {
        let ghost m = self.hir.functions@;
        let mut k: usize = 0;
        while k < self.hir.functions.len()
            invariant
                k <= m.len(),
                m == self.hir.functions@,
                fn_index(m.take(k as int), id.0 as nat) < 0,
            decreases m.len() - k,
        {
            assert(m.take(k as int + 1).drop_last() =~= m.take(k as int));
            if self.hir.functions[k].id.0 == id.0 {
                proof {
                    lemma_fn_index_prefix(m, id.0 as nat, k as int + 1);
                }
                return Some(k);
            }
            k = k + 1;
        }
        assert(m.take(k as int) =~= m);
        None
    }
}


impl Validator {
    /// Resolves the signature of function `fn_id`, declared as `decl` in
    /// `module` with the generic scopes `generics` in view and labelled
    /// `fn_label` in reports: its parameters (see `params_spec`) and its
    /// return type (none: `null`) are recorded on the function. Pointer
    /// types are allowed in an extern function.
    pub fn resolve_function_signature(
        &mut self,
        modules: &[Module],
        fn_id: FnId,
        decl: &FunctionDecl,
        module: ModuleId,
        generics: Vec<Vec<(String, TypeParamId)>>,
        fn_label: &String,
    )
        requires
            old(self).fn_slot(fn_id.0 as nat) >= 0,
            params_spec(
                old(self).res_env(modules@),
                CtxM {
                    module: module.0 as nat,
                    generics: generics@.map_values(|v: Vec<(String, TypeParamId)>| gscope_m(v@)),
                    subst: Seq::empty(),
                    allow_pointer: decl.is_extern,
                },
                decl.params@,
                fn_label@,
                decl.is_extern,
            ) is Some,
            ret_spec(
                old(self).res_env(modules@),
                CtxM {
                    module: module.0 as nat,
                    generics: generics@.map_values(|v: Vec<(String, TypeParamId)>| gscope_m(v@)),
                    subst: Seq::empty(),
                    allow_pointer: decl.is_extern,
                },
                decl.return_type,
            ) is Some,
        ensures
            final(self).wf() == old(self).wf(),
            final(self)@ == (RegistryM { errs: final(self).names_view().errs, ..old(self)@ }),
            final(self).names_view() == (NamesM { errs: final(self).names_view().errs, ..old(self).names_view() }),
            final(self).res_env(modules@) == old(self).res_env(modules@),
            final(self).tparams_view() == old(self).tparams_view(),
            ({
                let c = CtxM {
                    module: module.0 as nat,
                    generics: generics@.map_values(|v: Vec<(String, TypeParamId)>| gscope_m(v@)),
                    subst: Seq::empty(),
                    allow_pointer: decl.is_extern,
                };
                let (pe, ps) = params_spec(old(self).res_env(modules@), c, decl.params@, fn_label@, decl.is_extern).unwrap();
                let (re, rt) = ret_spec(old(self).res_env(modules@), c, decl.return_type).unwrap();
                &&& final(self).names_view().errs == old(self).names_view().errs + pe + re
                &&& final(self).sigs_view() == old(self).sigs_view().update(
                    old(self).fn_slot(fn_id.0 as nat),
                    (fn_id.0 as nat, ps, rt),
                )
            }),
    {
        let ghost env = self.res_env(modules@);
        let ghost e0 = self.names_view().errs;
        let ghost r0 = self@;
        let ghost v0 = self.names_view();
        let ghost w0 = self.wf();
        let ghost tp0 = self.tparams_view();
        let ghost sg0 = self.sigs_view();
        let ghost f0 = self.hir.functions@;
        let ghost gm = generics@.map_values(|v: Vec<(String, TypeParamId)>| gscope_m(v@));
        let ctx = TypeResolveCtx { module, generics, local_subst: Vec::new(), allow_pointer: decl.is_extern };
        let ghost c = ctx_m(ctx);
        proof {
            assert(ctx_m(ctx).subst =~= Seq::<(Seq<char>, TypeModel)>::empty());
            assert(ctx_m(ctx).generics =~= gm);
            assert(c == (CtxM { module: module.0 as nat, generics: gm, subst: Seq::empty(), allow_pointer: decl.is_extern }));
        }
        let ghost ps = decl.params@;
        let mut params: Vec<HirParam> = Vec::new();
        let mut seen: Vec<String> = Vec::new();
        let mut i: usize = 0;
        proof {
            assert(ps.take(0) =~= Seq::<ParamDecl>::empty());
            assert(self.names_view().errs =~= e0 + Seq::<ModuleErrM>::empty());
            assert(hparams_m(params@) =~= Seq::<(Seq<char>, TypeModel, bool)>::empty());
            assert(seen@.map_values(|n: String| n@) =~= ps.take(0).map_values(|q: ParamDecl| q.name@));
        }
        while i < decl.params.len()
            invariant
                i <= ps.len(),
                ps == decl.params@,
                env == old(self).res_env(modules@),
                self.res_env(modules@) == env,
                c == ctx_m(ctx),
                c.allow_pointer == decl.is_extern,
                params_spec(env, c, ps, fn_label@, decl.is_extern) is Some,
                params_spec(env, c, ps.take(i as int), fn_label@, decl.is_extern) is Some,
                seen@.map_values(|n: String| n@) == ps.take(i as int).map_values(|q: ParamDecl| q.name@),
                self.wf() == w0,
                self@ == (RegistryM { errs: self.names_view().errs, ..r0 }),
                self.names_view() == (NamesM { errs: self.names_view().errs, ..v0 }),
                self.tparams_view() == tp0,
                self.sigs_view() == sg0,
                self.hir.functions@ == f0,
                self.names_view().errs == e0 + params_spec(env, c, ps.take(i as int), fn_label@, decl.is_extern).unwrap().0,
                hparams_m(params@) == params_spec(env, c, ps.take(i as int), fn_label@, decl.is_extern).unwrap().1,
            decreases ps.len() - i,
        {
            proof {
                lemma_params_prefix(env, c, ps, fn_label@, decl.is_extern, i as int + 1);
                assert(ps.take(i as int + 1).drop_last() =~= ps.take(i as int));
                assert(ps.take(i as int + 1).last() == ps[i as int]);
            }
            let ghost prev = params_spec(env, c, ps.take(i as int), fn_label@, decl.is_extern).unwrap();
            let p = &decl.params[i];
            let ghost s0 = seen@;
            if string_in(&seen, &p.name) {
                let err = ValidationError::DuplicateParam { function: fn_label.clone(), param: p.name.clone() };
                let ghost b = self.names_view().errs;
                let ghost sb = *self;
                self.errors.push(err);
                proof {
                    assert(self.hir == sb.hir && self.module_names == sb.module_names);
                    assert(self.pending_named_imports == sb.pending_named_imports);
                    assert(self.wf() == sb.wf());
                    assert(self.names_view().errs =~= b.push(module_err_m(err)));
                }
            } else {
                let ghost b = self.names_view().errs;
                if p.is_pointer && !decl.is_extern {
                    let mut loc = fn_label.clone();
                    append_str(&mut loc, "(");
                    append_str(&mut loc, p.name.as_str());
                    append_str(&mut loc, ")");
                    let err = ValidationError::PointerOutsideExtern { location: loc };
                    let ghost sb = *self;
                    self.errors.push(err);
                    proof {
                        assert(self.hir == sb.hir && self.module_names == sb.module_names);
                        assert(self.pending_named_imports == sb.pending_named_imports);
                        assert(self.wf() == sb.wf());
                        assert(self.names_view().errs =~= b.push(module_err_m(err)));
                    }
                }
                let ghost b1 = self.names_view().errs;
                let ty = self.resolve_type_expr(modules, &p.ty, &ctx);
                let ghost cur = resolves(env, c, ps[i as int].ty).unwrap();
                let ghost pp = params@;
                params.push(HirParam { name: p.name.clone(), ty, is_pointer: p.is_pointer });
                proof {
                    assert(hparams_m(params@) =~= hparams_m(pp).push((ps[i as int].name@, cur.1, ps[i as int].is_pointer)));
                    assert(self.names_view().errs =~= b1 + cur.0);
                }
            }
            seen.push(p.name.clone());
            proof {
                assert(seen@.map_values(|n: String| n@) =~= s0.map_values(|n: String| n@).push(ps[i as int].name@));
                assert(ps.take(i as int + 1).map_values(|q: ParamDecl| q.name@) =~= ps.take(i as int).map_values(
                    |q: ParamDecl| q.name@,
                ).push(ps[i as int].name@));
            }
            i = i + 1;
        }
        proof {
            assert(ps.take(ps.len() as int) =~= ps);
        }
        let ghost ep = self.names_view().errs;
        let return_type = match &decl.return_type {
            Some(t) => self.resolve_type_expr(modules, t, &ctx),
            None => {
                assert(self.names_view().errs =~= ep + Seq::<ModuleErrM>::empty());
                ResolvedType::Null
            },
        };
        let k = match self.fn_find(fn_id) {
            Some(k) => k,
            None => {
                return;
            },
        };
        proof {
            lemma_fn_index(f0, fn_id.0 as nat);
        }
        let ghost sb = *self;
        let ghost fs = self.hir.functions@;
        let mut f = self.hir.functions.remove(k);
        let ghost fo = f;
        f.params = params;
        f.return_type = return_type;
        self.hir.functions.insert(k, f);
        proof {
            assert(self.hir.functions@ =~= fs.update(k as int, f));
            assert(self.sigs_view() =~= sg0.update(k as int, (fn_id.0 as nat, hparams_m(f.params@), model(f.return_type))));
            assert(self.hir.modules == sb.hir.modules);
            assert(self.module_names == sb.module_names);
            assert(self.pending_named_imports == sb.pending_named_imports);
            assert(self.wf() == sb.wf());
            assert(self.names_view().functions =~= sb.names_view().functions);
            assert(self.names_view() =~= sb.names_view());
            assert(self@ =~= sb@);
            assert(self.res_env(modules@) =~= sb.res_env(modules@));
            assert(self.tparams_view() =~= sb.tparams_view());
        }
    }
}


/// Resolving the fields of type `label` (written `module::type`) in order:
/// a name already among the fields is reported and skipped; a pointer
/// field outside an extern struct is reported (and still resolved); each
/// other field keeps its name, resolved type and pointer flag.
pub open spec fn fields_spec(env: ResEnv, ctx: CtxM, fs: Seq<FieldDecl>, label: Seq<char>, is_extern: bool) -> Option<
    (Seq<ModuleErrM>, Seq<(Seq<char>, TypeModel, bool)>),
>
    decreases fs.len(),
{
    if fs.len() == 0 {
        Some((Seq::empty(), Seq::empty()))
    } else {
        match fields_spec(env, ctx, fs.drop_last(), label, is_extern) {
            None => None,
            Some((e, out)) => {
                let f = fs.last();
                if fs.drop_last().map_values(|q: FieldDecl| q.name@).contains(f.name@) {
                    Some((e.push(ModuleErrM::DuplicateField(label, f.name@)), out))
                } else {
                    let e1 = if f.is_pointer && !is_extern {
                        e.push(ModuleErrM::PointerOutsideExtern(label + "."@ + f.name@))
                    } else {
                        e
                    };
                    match resolves(env, ctx, f.ty) {
                        None => None,
                        Some((e2, t)) => Some((e1 + e2, out.push((f.name@, t, f.is_pointer)))),
                    }
                }
            },
        }
    }
}

/// The model of resolved fields.
pub open spec fn hfields_m(fs: Seq<HirField>) -> Seq<(Seq<char>, TypeModel, bool)> {
    fs.map_values(|f: HirField| (f.name@, model(f.ty), f.is_pointer))
}

proof fn lemma_fields_prefix(env: ResEnv, ctx: CtxM, s: Seq<FieldDecl>, label: Seq<char>, x: bool, n: int)
    requires
        0 <= n <= s.len(),
        fields_spec(env, ctx, s, label, x) is Some,
    ensures
        fields_spec(env, ctx, s.take(n), label, x) is Some,
    decreases s.len() - n,
{
    if n < s.len() {
        lemma_fields_prefix(env, ctx, s, label, x, n + 1);
        assert(s.take(n + 1).drop_last() =~= s.take(n));
    } else {
        assert(s.take(n) =~= s);
    }
}

impl Validator {
    /// Resolves the fields of type `owner_name` of module `module_name`
    /// (`module` by id), whose own generic scope is `scope`; pointer types
    /// are allowed in an extern struct. See `fields_spec`.
    pub fn resolve_fields(
        &mut self,
        modules: &[Module],
        module: ModuleId,
        scope: Vec<(String, TypeParamId)>,
        fields: &[FieldDecl],
        is_extern: bool,
        module_name: &String,
        owner_name: &String,
    ) -> (r: Vec<HirField>)
        requires
            fields_spec(
                old(self).res_env(modules@),
                CtxM { module: module.0 as nat, generics: seq![gscope_m(scope@)], subst: Seq::empty(), allow_pointer: is_extern },
                fields@,
                module_name@ + "::"@ + owner_name@,
                is_extern,
            ) is Some,
        ensures
            final(self).same_but_errors(old(self)),
            ({
                let (e, out) = fields_spec(
                    old(self).res_env(modules@),
                    CtxM { module: module.0 as nat, generics: seq![gscope_m(scope@)], subst: Seq::empty(), allow_pointer: is_extern },
                    fields@,
                    module_name@ + "::"@ + owner_name@,
                    is_extern,
                ).unwrap();
                &&& final(self).names_view().errs == old(self).names_view().errs + e
                &&& hfields_m(r@) == out
            }),
    {
        let ghost env = self.res_env(modules@);
        let ghost e0 = self.names_view().errs;
        let ghost s0 = *self;
        let mut label = module_name.clone();
        append_str(&mut label, "::");
        append_str(&mut label, owner_name.as_str());
        let ghost gm = seq![gscope_m(scope@)];
        let ctx = TypeResolveCtx { module, generics: vec![scope], local_subst: Vec::new(), allow_pointer: is_extern };
        let ghost c = ctx_m(ctx);
        proof {
            assert(ctx_m(ctx).subst =~= Seq::<(Seq<char>, TypeModel)>::empty());
            assert(ctx_m(ctx).generics =~= gm);
            assert(c == (CtxM { module: module.0 as nat, generics: gm, subst: Seq::empty(), allow_pointer: is_extern }));
        }
        let ghost fs = fields@;
        let mut out: Vec<HirField> = Vec::new();
        let mut seen: Vec<String> = Vec::new();
        let mut i: usize = 0;
        proof {
            assert(fs.take(0) =~= Seq::<FieldDecl>::empty());
            assert(self.names_view().errs =~= e0 + Seq::<ModuleErrM>::empty());
            assert(hfields_m(out@) =~= Seq::<(Seq<char>, TypeModel, bool)>::empty());
            assert(seen@.map_values(|n: String| n@) =~= fs.take(0).map_values(|q: FieldDecl| q.name@));
        }
        while i < fields.len()
            invariant
                i <= fs.len(),
                fs == fields@,
                env == old(self).res_env(modules@),
                self.res_env(modules@) == env,
                c == ctx_m(ctx),
                label@ == module_name@ + "::"@ + owner_name@,
                fields_spec(env, c, fs, label@, is_extern) is Some,
                fields_spec(env, c, fs.take(i as int), label@, is_extern) is Some,
                seen@.map_values(|n: String| n@) == fs.take(i as int).map_values(|q: FieldDecl| q.name@),
                self.same_but_errors(&s0),
                s0 == *old(self),
                self.names_view().errs == e0 + fields_spec(env, c, fs.take(i as int), label@, is_extern).unwrap().0,
                hfields_m(out@) == fields_spec(env, c, fs.take(i as int), label@, is_extern).unwrap().1,
            decreases fs.len() - i,
        {
            proof {
                lemma_fields_prefix(env, c, fs, label@, is_extern, i as int + 1);
                assert(fs.take(i as int + 1).drop_last() =~= fs.take(i as int));
                assert(fs.take(i as int + 1).last() == fs[i as int]);
            }
            let f = &fields[i];
            let ghost sn = seen@;
            if string_in(&seen, &f.name) {
                let err = ValidationError::DuplicateField { type_label: label.clone(), field: f.name.clone() };
                let ghost b = self.names_view().errs;
                self.errors.push(err);
                proof {
                    assert(self.names_view().errs =~= b.push(module_err_m(err)));
                }
            } else {
                if f.is_pointer && !is_extern {
                    let mut loc = label.clone();
                    append_str(&mut loc, ".");
                    append_str(&mut loc, f.name.as_str());
                    let err = ValidationError::PointerOutsideExtern { location: loc };
                    let ghost b = self.names_view().errs;
                    self.errors.push(err);
                    proof {
                        assert(self.names_view().errs =~= b.push(module_err_m(err)));
                    }
                }
                let ghost b1 = self.names_view().errs;
                let ty = self.resolve_type_expr(modules, &f.ty, &ctx);
                let ghost cur = resolves(env, c, fs[i as int].ty).unwrap();
                let ghost o0 = out@;
                out.push(HirField { name: f.name.clone(), ty, is_pointer: f.is_pointer });
                proof {
                    assert(hfields_m(out@) =~= hfields_m(o0).push((fs[i as int].name@, cur.1, fs[i as int].is_pointer)));
                    assert(self.names_view().errs =~= b1 + cur.0);
                }
            }
            seen.push(f.name.clone());
            proof {
                assert(seen@.map_values(|n: String| n@) =~= sn.map_values(|n: String| n@).push(fs[i as int].name@));
                assert(fs.take(i as int + 1).map_values(|q: FieldDecl| q.name@) =~= fs.take(i as int).map_values(
                    |q: FieldDecl| q.name@,
                ).push(fs[i as int].name@));
            }
            i = i + 1;
        }
        proof {
            assert(fs.take(fs.len() as int) =~= fs);
        }
        out
    }
}


/// The type parameters of a declaration, as types.
pub open spec fn tparam_types(ps: Seq<TypeParamId>) -> Seq<TypeModel> {
    ps.map_values(|t: TypeParamId| TypeModel::TypeParam(t.0))
}

/// The type of `self` inside the struct or interface `owner`: the type
/// applied to its own type parameters; `null` for any other id.
pub open spec fn self_type_spec(structs: Seq<HirStruct>, ifaces: Seq<HirInterface>, owner: nat) -> TypeModel {
    match struct_info(structs, owner) {
        Some(st) => TypeModel::Struct(owner as u32, tparam_types(st.type_params@)),
        None => match iface_info(ifaces, owner) {
            Some(i) => TypeModel::Interface(owner as u32, tparam_types(i.type_params@)),
            None => TypeModel::Null,
        },
    }
}

/// Each type parameter as a type.
fn tparams_as_types(ps: &Vec<TypeParamId>) -> (r: Vec<ResolvedType>)
    ensures
        models(r@) == tparam_types(ps@),
{
    let mut out: Vec<ResolvedType> = Vec::new();
    let mut i: usize = 0;
    while i < ps.len()
        invariant
            i <= ps@.len(),
            out@.len() == i,
            forall|j: int| 0 <= j < i ==> model(#[trigger] out@[j]) == TypeModel::TypeParam(ps@[j].0),
        decreases ps@.len() - i,
    {
        out.push(ResolvedType::TypeParam(ps[i]));
        i = i + 1;
    }
    proof {
        lemma_models(out@);
    }
    assert(models(out@) =~= tparam_types(ps@));
    out
}

impl Validator {
    /// The HIR built so far.
    pub closed spec fn hir_view(&self) -> Hir {
        self.hir
    }

    /// The type of `self` inside the struct or interface `owner`.
    pub fn self_type_for(&self, owner: TypeId) -> (r: ResolvedType)
        ensures
            model(r) == self_type_spec(self.hir_view().structs@, self.hir_view().interfaces@, owner.0 as nat),
    {
        match self.struct_index(owner.0) {
            Some(k) => ResolvedType::Struct(owner, tparams_as_types(&self.hir.structs[k].type_params)),
            None => match self.iface_index(owner.0) {
                Some(k) => ResolvedType::Interface(owner, tparams_as_types(&self.hir.interfaces[k].type_params)),
                None => ResolvedType::Null,
            },
        }
    }
}


// ---------------------------------------------------------------------------
// The validator: the interfaces a struct must satisfy
// ---------------------------------------------------------------------------

/// An interface instance: the interface and its type arguments.
pub type IfaceInst = (nat, Seq<TypeModel>);

pub open spec fn insts_m(s: Seq<(TypeId, Vec<ResolvedType>)>) -> Seq<IfaceInst> {
    s.map_values(|p: (TypeId, Vec<ResolvedType>)| (p.0.0 as nat, models(p.1@)))
}

/// The binding of an interface's type parameters to the arguments at the
/// same positions (extra ones ignored).
pub open spec fn iface_lookup(tps: Seq<TypeParamId>, args: Seq<TypeModel>) -> spec_fn(u32) -> Option<TypeModel> {
    |id: u32| bound_upto(tps, args, if tps.len() < args.len() { tps.len() as int } else { args.len() as int }, id)
}

/// The parents of interface `i` taken with arguments `args`: each parent
/// with its arguments, `i`'s parameters replaced by `args`.
pub open spec fn parents_of(i: HirInterface, args: Seq<TypeModel>) -> Seq<IfaceInst> {
    i.extends@.map_values(
        |p: (TypeId, Vec<ResolvedType>)| (
            p.0.0 as nat,
            p.1@.map_values(|t: ResolvedType| subst_model(iface_lookup(i.type_params@, args), model(t))),
        ),
    )
}

/// How many of `ids` are not in `visited`.
pub open spec fn unvisited(ids: Seq<nat>, visited: Seq<nat>) -> nat
    decreases ids.len(),
{
    if ids.len() == 0 {
        0
    } else {
        unvisited(ids.drop_last(), visited) + if visited.contains(ids.last()) { 0nat } else { 1nat }
    }
}

pub proof fn lemma_unvisited_push(ids: Seq<nat>, visited: Seq<nat>, x: nat)
    ensures
        unvisited(ids, visited.push(x)) <= unvisited(ids, visited),
        ids.contains(x) && !visited.contains(x) ==> unvisited(ids, visited.push(x)) < unvisited(ids, visited),
    decreases ids.len(),
{
    if ids.len() > 0 {
        lemma_unvisited_push(ids.drop_last(), visited, x);
        assert(visited.push(x).contains(ids.last()) == (visited.contains(ids.last()) || ids.last() == x)) by {
            if visited.contains(ids.last()) {
                let k = choose|k: int| 0 <= k < visited.len() && visited[k] == ids.last();
                assert(visited.push(x)[k] == ids.last());
            }
            if ids.last() == x {
                assert(visited.push(x)[visited.len() as int] == x);
            }
            if visited.push(x).contains(ids.last()) {
                let k = choose|k: int| 0 <= k < visited.push(x).len() && visited.push(x)[k] == ids.last();
                if k < visited.len() {
                    assert(visited[k] == ids.last());
                }
            }
        }
        if ids.contains(x) && !visited.contains(x) {
            if ids.last() != x {
                let k = choose|k: int| 0 <= k < ids.len() && ids[k] == x;
                assert(ids.drop_last()[k] == x);
            }
        }
    }
}

/// The ids of the interfaces.
pub open spec fn iface_ids(ifaces: Seq<HirInterface>) -> Seq<nat> {
    ifaces.map_values(|i: HirInterface| i.id.0 as nat)
}

pub proof fn lemma_iface_info_in_ids(ifaces: Seq<HirInterface>, id: nat)
    ensures
        iface_info(ifaces, id) is Some ==> iface_ids(ifaces).contains(id),
        iface_info(ifaces, id) matches Some(i) ==> i.id.0 == id,
    decreases ifaces.len(),
{
    if ifaces.len() > 0 {
        lemma_iface_info_in_ids(ifaces.drop_last(), id);
        if iface_info(ifaces.drop_last(), id) is Some {
            let k = choose|k: int| 0 <= k < iface_ids(ifaces.drop_last()).len() && iface_ids(ifaces.drop_last())[k] == id;
            assert(iface_ids(ifaces)[k] == id);
        } else if ifaces.last().id.0 == id {
            assert(iface_ids(ifaces)[ifaces.len() - 1] == id);
        }
    }
}

/// Collecting the interfaces required through `stack` (taken from its
/// end): an interface already visited is skipped; any other is recorded
/// with its arguments, and its parents, with their arguments instantiated,
/// are stacked in order.
pub open spec fn collect_req(
    ifaces: Seq<HirInterface>,
    stack: Seq<IfaceInst>,
    visited: Seq<nat>,
    result: Seq<IfaceInst>,
) -> Seq<IfaceInst>
    decreases unvisited(iface_ids(ifaces), visited), stack.len(),
{
    if stack.len() == 0 {
        result
    } else {
        let top = stack.last();
        let rest = stack.drop_last();
        if visited.contains(top.0) {
            collect_req(ifaces, rest, visited, result)
        } else {
            proof {
                lemma_unvisited_push(iface_ids(ifaces), visited, top.0);
                lemma_iface_info_in_ids(ifaces, top.0);
            }
            match iface_info(ifaces, top.0) {
                None => collect_req(ifaces, rest, visited.push(top.0), result.push(top)),
                Some(i) => collect_req(ifaces, rest + parents_of(i, top.1), visited.push(top.0), result.push(top)),
            }
        }
    }
}


/// Copies a list of type parameters.
fn copy_tparams(v: &Vec<TypeParamId>) -> (r: Vec<TypeParamId>)
    ensures
        r@ == v@,
{
    let mut out: Vec<TypeParamId> = Vec::new();
    let mut i: usize = 0;
    while i < v.len()
        invariant
            i <= v@.len(),
            out@ == v@.take(i as int),
        decreases v@.len() - i,
    {
        out.push(v[i]);
        assert(v@.take(i as int + 1) =~= v@.take(i as int).push(v@[i as int]));
        i = i + 1;
    }
    assert(v@.take(v@.len() as int) =~= v@);
    out
}

/// Whether `v` holds the id `id`.
fn has_type_id(v: &Vec<TypeId>, id: TypeId) -> (r: bool)
    ensures
        r == v@.map_values(|t: TypeId| t.0 as nat).contains(id.0 as nat),
{
    let ghost m = v@.map_values(|t: TypeId| t.0 as nat);
    let mut i: usize = 0;
    while i < v.len()
        invariant
            i <= v@.len(),
            m == v@.map_values(|t: TypeId| t.0 as nat),
            forall|k: int| 0 <= k < i ==> #[trigger] m[k] != id.0 as nat,
        decreases v@.len() - i,
    {
        if v[i].0 == id.0 {
            assert(m[i as int] == id.0 as nat);
            return true;
        }
        i = i + 1;
    }
    false
}

impl Validator {
    /// The interfaces that a struct implementing `direct` must satisfy:
    /// those it names and, transitively, their parents, each with its type
    /// arguments instantiated, every interface once (see `collect_req`).
    pub fn collect_required_interfaces(&self, direct: &Vec<(TypeId, Vec<ResolvedType>)>) -> (r: Vec<(TypeId, Vec<ResolvedType>)>)
        ensures
            insts_m(r@) == collect_req(self.hir_view().interfaces@, insts_m(direct@), Seq::empty(), Seq::empty()),
    {
        let ghost ifaces = self.hir.interfaces@;
        let ghost target = collect_req(ifaces, insts_m(direct@), Seq::empty(), Seq::empty());
        let mut stack: Vec<(TypeId, Vec<ResolvedType>)> = Vec::new();
        let mut i: usize = 0;
        while i < direct.len()
            invariant
                i <= direct@.len(),
                insts_m(stack@) == insts_m(direct@).take(i as int),
            decreases direct@.len() - i,
        {
            let ghost s0 = insts_m(stack@);
            stack.push((direct[i].0, clone_types(&direct[i].1)));
            assert(insts_m(stack@) =~= s0.push(insts_m(direct@)[i as int]));
            assert(insts_m(direct@).take(i as int + 1) =~= insts_m(direct@).take(i as int).push(insts_m(direct@)[i as int]));
            i = i + 1;
        }
        assert(insts_m(direct@).take(direct@.len() as int) =~= insts_m(direct@));
        let mut visited: Vec<TypeId> = Vec::new();
        let mut result: Vec<(TypeId, Vec<ResolvedType>)> = Vec::new();
        assert(visited@.map_values(|t: TypeId| t.0 as nat) =~= Seq::<nat>::empty());
        assert(insts_m(result@) =~= Seq::<IfaceInst>::empty());
        while stack.len() > 0
            invariant
                ifaces == self.hir.interfaces@,
                target == collect_req(
                    ifaces,
                    insts_m(stack@),
                    visited@.map_values(|t: TypeId| t.0 as nat),
                    insts_m(result@),
                ),
            decreases unvisited(iface_ids(ifaces), visited@.map_values(|t: TypeId| t.0 as nat)), stack@.len(),
        {
            let ghost st = insts_m(stack@);
            let ghost vis = visited@.map_values(|t: TypeId| t.0 as nat);
            let ghost res = insts_m(result@);
            let (id, args) = stack.pop().unwrap();
            proof {
                assert(insts_m(stack@) =~= st.drop_last());
                assert(st.last() == (id.0 as nat, models(args@)));
            }
            if has_type_id(&visited, id) {
                continue;
            }
            proof {
                lemma_unvisited_push(iface_ids(ifaces), vis, id.0 as nat);
                lemma_iface_info_in_ids(ifaces, id.0 as nat);
            }
            visited.push(id);
            assert(visited@.map_values(|t: TypeId| t.0 as nat) =~= vis.push(id.0 as nat));
            let args_copy = clone_types(&args);
            result.push((id, args_copy));
            assert(insts_m(result@) =~= res.push((id.0 as nat, models(args@))));
            match self.iface_index(id.0) {
                Some(k) => {
                    let iface = &self.hir.interfaces[k];
                    let ghost am = args@;
                    proof {
                        lemma_models(am);
                    }
                    let sub = Subst::new(copy_tparams(&iface.type_params), args);
                    let ghost look = iface_lookup(iface.type_params@, st.last().1);
                    proof {
                        assert forall|x: u32| #[trigger] (sub.lookup())(x) == look(x) by {
                            assert(sub.binding(x) == bound_upto(
                                iface.type_params@,
                                models(am),
                                if iface.type_params@.len() < am.len() {
                                    iface.type_params@.len() as int
                                } else {
                                    am.len() as int
                                },
                                x,
                            ));
                        }
                        assert(sub.lookup() =~= look);
                    }
                    let ghost parents = parents_of(*iface, st.last().1);
                    let ghost base = insts_m(stack@);
                    let mut j: usize = 0;
                    while j < iface.extends.len()
                        invariant
                            j <= iface.extends@.len(),
                            parents == parents_of(*iface, st.last().1),
                            sub.lookup() == look,
                            look == iface_lookup(iface.type_params@, st.last().1),
                            insts_m(stack@) == base + parents.take(j as int),
                        decreases iface.extends@.len() - j,
                    {
                        let p = &iface.extends[j];
                        let mut pargs: Vec<ResolvedType> = Vec::new();
                        let mut q: usize = 0;
                        while q < p.1.len()
                            invariant
                                q <= p.1@.len(),
                                sub.lookup() == look,
                                pargs@.len() == q,
                                forall|t: int| 0 <= t < q ==> #[trigger] model(pargs@[t]) == subst_model(look, model(p.1@[t])),
                            decreases p.1@.len() - q,
                        {
                            pargs.push(sub.apply(&p.1[q]));
                            q = q + 1;
                        }
                        proof {
                            lemma_models(pargs@);
                            assert(models(pargs@) =~= p.1@.map_values(|t: ResolvedType| subst_model(look, model(t))));
                        }
                        let ghost s0 = insts_m(stack@);
                        stack.push((p.0, pargs));
                        proof {
                            assert(insts_m(stack@) =~= s0.push(parents[j as int]));
                            assert(parents.take(j as int + 1) =~= parents.take(j as int).push(parents[j as int]));
                        }
                        j = j + 1;
                    }
                    proof {
                        assert(parents.take(iface.extends@.len() as int) =~= parents);
                    }
                },
                None => {},
            }
        }
        result
    }
}


/// The name of the first function with id `id`, if there is one.
pub open spec fn fn_name(fns: Seq<HirFunction>, id: nat) -> Option<Seq<char>> {
    let k = fn_index(fns, id);
    if k < 0 {
        None
    } else {
        Some(fns[k].name@)
    }
}

/// The first of `ids` whose function is named `name`, or -1.
pub open spec fn first_named(fns: Seq<HirFunction>, ids: Seq<FnId>, name: Seq<char>) -> int
    decreases ids.len(),
{
    if ids.len() == 0 {
        -1
    } else if first_named(fns, ids.drop_last(), name) >= 0 {
        first_named(fns, ids.drop_last(), name)
    } else if fn_name(fns, ids.last().0 as nat) == Some(name) {
        ids.len() - 1
    } else {
        -1
    }
}

/// The first extend method named `name` that applies to the struct's
/// abstract self (its target arguments are the struct's `n` parameters,
/// renamed), or -1.
pub open spec fn first_universal(fns: Seq<HirFunction>, ext: Seq<(Vec<ResolvedType>, FnId)>, name: Seq<char>, n: int) -> int
    decreases ext.len(),
{
    if ext.len() == 0 {
        -1
    } else if first_universal(fns, ext.drop_last(), name, n) >= 0 {
        first_universal(fns, ext.drop_last(), name, n)
    } else if fn_name(fns, ext.last().1.0 as nat) == Some(name) && is_universal_target(models(ext.last().0@), n) {
        ext.len() - 1
    } else {
        -1
    }
}

proof fn lemma_first_named_prefix(fns: Seq<HirFunction>, ids: Seq<FnId>, name: Seq<char>, n: int)
    requires
        0 <= n <= ids.len(),
        first_named(fns, ids.take(n), name) >= 0,
    ensures
        first_named(fns, ids, name) == first_named(fns, ids.take(n), name),
    decreases ids.len() - n,
{
    if n < ids.len() {
        assert(ids.take(n + 1).drop_last() =~= ids.take(n));
        lemma_first_named_prefix(fns, ids, name, n + 1);
    } else {
        assert(ids.take(n) =~= ids);
    }
}

proof fn lemma_first_universal_prefix(
    fns: Seq<HirFunction>,
    ext: Seq<(Vec<ResolvedType>, FnId)>,
    name: Seq<char>,
    k: int,
    n: int,
)
    requires
        0 <= n <= ext.len(),
        first_universal(fns, ext.take(n), name, k) >= 0,
    ensures
        first_universal(fns, ext, name, k) == first_universal(fns, ext.take(n), name, k),
    decreases ext.len() - n,
{
    if n < ext.len() {
        assert(ext.take(n + 1).drop_last() =~= ext.take(n));
        lemma_first_universal_prefix(fns, ext, name, k, n + 1);
    } else {
        assert(ext.take(n) =~= ext);
    }
}

impl Validator {
    /// The method of `struct_def` that provides `name` for the struct's
    /// abstract self: its first inline method of that name, with no
    /// renaming; else its first extend method of that name whose target
    /// arguments are the struct's parameters, renamed, with the renaming of
    /// the extend's parameters onto the struct's.
    pub fn find_struct_method(&self, struct_def: &HirStruct, name: &String) -> (r: Option<(FnId, Subst)>)
        ensures
            ({
                let fns = self.hir_view().functions@;
                let k = first_named(fns, struct_def.methods@, name@);
                let j = first_universal(
                    fns,
                    struct_def.specialised_methods@,
                    name@,
                    struct_def.type_params@.len() as int,
                );
                if k >= 0 {
                    r matches Some((f, m)) && f == struct_def.methods@[k] && forall|id: u32| #[trigger] m.binding(id) is None
                } else if j >= 0 {
                    r matches Some((f, m)) && f == struct_def.specialised_methods@[j].1 && {
                        let args = models(struct_def.specialised_methods@[j].0@);
                        &&& forall|i: int|
                            0 <= i < args.len() ==> m.binding(#[trigger] args[i]->TypeParam_0) == Some(
                                TypeModel::TypeParam(struct_def.type_params@[i].0),
                            )
                        &&& forall|id: u32|
                            (forall|i: int| 0 <= i < args.len() ==> #[trigger] args[i] != TypeModel::TypeParam(id))
                                ==> #[trigger] m.binding(id) is None
                    }
                } else {
                    r is None
                }
            }),
    {
        let ghost fns = self.hir.functions@;
        let ghost ids = struct_def.methods@;
        let mut k: usize = 0;
        while k < struct_def.methods.len()
            invariant
                k <= ids.len(),
                ids == struct_def.methods@,
                fns == self.hir.functions@,
                first_named(fns, ids.take(k as int), name@) < 0,
            decreases ids.len() - k,
        {
            assert(ids.take(k as int + 1).drop_last() =~= ids.take(k as int));
            assert(ids.take(k as int + 1).last() == ids[k as int]);
            let id = struct_def.methods[k];
            match self.fn_find(id) {
                Some(p) => {
                    proof {
                        lemma_fn_index(fns, id.0 as nat);
                    }
                    if self.hir.functions[p].name == *name {
                        proof {
                            lemma_first_named_prefix(fns, ids, name@, k as int + 1);
                        }
                        let empty = Subst::new(Vec::new(), Vec::new());
                        return Some((id, empty));
                    }
                },
                None => {},
            }
            k = k + 1;
        }
        proof {
            assert(ids.take(k as int) =~= ids);
        }
        let ghost ext = struct_def.specialised_methods@;
        let ghost n = struct_def.type_params@.len() as int;
        let mut j: usize = 0;
        while j < struct_def.specialised_methods.len()
            invariant
                j <= ext.len(),
                ext == struct_def.specialised_methods@,
                fns == self.hir.functions@,
                n == struct_def.type_params@.len(),
                first_named(fns, ids, name@) < 0,
                ids == struct_def.methods@,
                first_universal(fns, ext.take(j as int), name@, n) < 0,
            decreases ext.len() - j,
        {
            assert(ext.take(j as int + 1).drop_last() =~= ext.take(j as int));
            assert(ext.take(j as int + 1).last() == ext[j as int]);
            let e = &struct_def.specialised_methods[j];
            let matches_name = match self.fn_find(e.1) {
                Some(p) => {
                    proof {
                        lemma_fn_index(fns, e.1.0 as nat);
                    }
                    self.hir.functions[p].name == *name
                },
                None => false,
            };
            if matches_name {
                let ta = e.0.as_slice();
                let tp = struct_def.type_params.as_slice();
                assert(ta@ == e.0@);
                assert(tp@ == struct_def.type_params@);
                match universal_extend_mapping(ta, tp) {
                    Some(m) => {
                        proof {
                            lemma_first_universal_prefix(fns, ext, name@, n, j as int + 1);
                            assert(first_universal(fns, ext, name@, n) == j);
                            assert(ext[j as int] == *e);
                            let args = models(ext[j as int].0@);
                            assert(args == models(ta@));
                            lemma_models(ta@);
                            assert forall|i: int| 0 <= i < args.len() implies m.binding(#[trigger] args[i]->TypeParam_0)
                                == Some(TypeModel::TypeParam(struct_def.type_params@[i].0)) by {
                                assert(models(ta@)[i] == args[i]);
                            }
                            assert forall|id: u32|
                                (forall|i: int| 0 <= i < args.len() ==> #[trigger] args[i] != TypeModel::TypeParam(id))
                                    implies #[trigger] m.binding(id) is None by {
                                assert forall|i: int| 0 <= i < ta@.len() implies #[trigger] models(ta@)[i] != TypeModel::TypeParam(id) by {
                                    assert(args[i] == models(ta@)[i]);
                                }
                            }
                        }
                        return Some((e.1, m));
                    },
                    None => {},
                }
            }
            j = j + 1;
        }
        proof {
            assert(ext.take(j as int) =~= ext);
        }
        None
    }
}

/// The number a string of decimal digits spells.
pub open spec fn decimal_value(s: Seq<char>) -> int
    decreases s.len(),
{
    if s.len() == 0 {
        0
    } else {
        decimal_value(s.drop_last()) * 10 + (s.last() as int - '0' as int)
    }
}

/// The primitive `q` carries the name spelled `n` in source: its symbol
/// starts with the capital of `n`'s first letter; a numeric type's symbol
/// ends with the digits of `n`, which give the width in bits of the
/// machine type it is stored as, and it is a signed integer exactly when
/// `n` starts with `i` and a float exactly when it starts with `f`; any
/// other type's symbol goes on with the rest of `n`.
pub open spec fn named_in_source(n: Seq<char>, q: PrimitiveType) -> bool {
    let v = crate::lower::mangling::primitive_variant(q);
    let t = crate::mir::MirType::Primitive(q);
    &&& n.len() >= 2 && v.len() >= 1
    &&& n[0] as int == v[0] as int + 32
    &&& if '0' <= n[1] <= '9' {
        &&& v.len() >= n.len()
        &&& v.subrange(v.len() - (n.len() - 1), v.len() as int) == n.drop_first()
        &&& decimal_value(n.drop_first()) == crate::codegen::select::spec_prim_type(q).spec_bits()
        &&& (n[0] == 'i') == crate::codegen::select::spec_is_signed(t)
        &&& (n[0] == 'f') == crate::codegen::select::spec_is_float(t)
    } else {
        &&& v.len() >= n.len()
        &&& v.subrange(1, n.len() as int) == n.drop_first()
    }
}

/// Resolving a primitive type expression keeps the primitive: for every
/// type name `n` of the language (`i8` ... `u64`, `f32`, `f64`, `bool`,
/// `str`, `char`, `null`), the primitive it is parsed to resolves, without
/// error, to `null` for `null` and otherwise to the primitive with the
/// same name, signedness and width.
pub proof fn law_primitive_resolution_keeps_the_name(
    env: ResEnv,
    ctx: CtxM,
    n: Seq<char>,
    p: crate::ast::PrimitiveType,
    fuel: nat,
)
    requires
        crate::parser::primitive_named(n) == Some(p),
    ensures
        res_type(env, ctx, TypeExpr::Primitive(p), fuel) matches Some((errs, t)) && errs.len() == 0 && if p
            == crate::ast::PrimitiveType::Null {
            t == TypeModel::Null
        } else {
            t matches TypeModel::Primitive(q) && named_in_source(n, q)
        },
{
    crate::lower::mangling::lemma_reveal_primitive_names();
    reveal_with_fuel(decimal_value, 3);
    if p != crate::ast::PrimitiveType::Null {
        if n == seq!['i', '8'] {
            assert(p == crate::ast::PrimitiveType::Int8);
            let v = crate::lower::mangling::primitive_variant(PrimitiveType::Int8);
            assert(v =~= seq!['I', 'n', 't', '8']);
            assert(n.drop_first() =~= seq!['8']);
            assert(v.subrange(v.len() - (n.len() - 1), v.len() as int) =~= seq!['8']);
            assert(seq!['8'].drop_last() =~= Seq::<char>::empty());
        } else if n == seq!['i', '1', '6'] {
            assert(p == crate::ast::PrimitiveType::Int16);
            let v = crate::lower::mangling::primitive_variant(PrimitiveType::Int16);
            assert(v =~= seq!['I', 'n', 't', '1', '6']);
            assert(n.drop_first() =~= seq!['1', '6']);
            assert(v.subrange(v.len() - (n.len() - 1), v.len() as int) =~= seq!['1', '6']);
            assert(seq!['1', '6'].drop_last() =~= seq!['1']);
            assert(seq!['1'].drop_last() =~= Seq::<char>::empty());
        } else if n == seq!['i', '3', '2'] {
            assert(p == crate::ast::PrimitiveType::Int32);
            let v = crate::lower::mangling::primitive_variant(PrimitiveType::Int32);
            assert(v =~= seq!['I', 'n', 't', '3', '2']);
            assert(n.drop_first() =~= seq!['3', '2']);
            assert(v.subrange(v.len() - (n.len() - 1), v.len() as int) =~= seq!['3', '2']);
            assert(seq!['3', '2'].drop_last() =~= seq!['3']);
            assert(seq!['3'].drop_last() =~= Seq::<char>::empty());
        } else if n == seq!['i', '6', '4'] {
            assert(p == crate::ast::PrimitiveType::Int64);
            let v = crate::lower::mangling::primitive_variant(PrimitiveType::Int64);
            assert(v =~= seq!['I', 'n', 't', '6', '4']);
            assert(n.drop_first() =~= seq!['6', '4']);
            assert(v.subrange(v.len() - (n.len() - 1), v.len() as int) =~= seq!['6', '4']);
            assert(seq!['6', '4'].drop_last() =~= seq!['6']);
            assert(seq!['6'].drop_last() =~= Seq::<char>::empty());
        } else if n == seq!['u', '8'] {
            assert(p == crate::ast::PrimitiveType::Uint8);
            let v = crate::lower::mangling::primitive_variant(PrimitiveType::Uint8);
            assert(v =~= seq!['U', 'i', 'n', 't', '8']);
            assert(n.drop_first() =~= seq!['8']);
            assert(v.subrange(v.len() - (n.len() - 1), v.len() as int) =~= seq!['8']);
            assert(seq!['8'].drop_last() =~= Seq::<char>::empty());
        } else if n == seq!['u', '1', '6'] {
            assert(p == crate::ast::PrimitiveType::Uint16);
            let v = crate::lower::mangling::primitive_variant(PrimitiveType::Uint16);
            assert(v =~= seq!['U', 'i', 'n', 't', '1', '6']);
            assert(n.drop_first() =~= seq!['1', '6']);
            assert(v.subrange(v.len() - (n.len() - 1), v.len() as int) =~= seq!['1', '6']);
            assert(seq!['1', '6'].drop_last() =~= seq!['1']);
            assert(seq!['1'].drop_last() =~= Seq::<char>::empty());
        } else if n == seq!['u', '3', '2'] {
            assert(p == crate::ast::PrimitiveType::Uint32);
            let v = crate::lower::mangling::primitive_variant(PrimitiveType::Uint32);
            assert(v =~= seq!['U', 'i', 'n', 't', '3', '2']);
            assert(n.drop_first() =~= seq!['3', '2']);
            assert(v.subrange(v.len() - (n.len() - 1), v.len() as int) =~= seq!['3', '2']);
            assert(seq!['3', '2'].drop_last() =~= seq!['3']);
            assert(seq!['3'].drop_last() =~= Seq::<char>::empty());
        } else if n == seq!['u', '6', '4'] {
            assert(p == crate::ast::PrimitiveType::Uint64);
            let v = crate::lower::mangling::primitive_variant(PrimitiveType::Uint64);
            assert(v =~= seq!['U', 'i', 'n', 't', '6', '4']);
            assert(n.drop_first() =~= seq!['6', '4']);
            assert(v.subrange(v.len() - (n.len() - 1), v.len() as int) =~= seq!['6', '4']);
            assert(seq!['6', '4'].drop_last() =~= seq!['6']);
            assert(seq!['6'].drop_last() =~= Seq::<char>::empty());
        } else if n == seq!['f', '3', '2'] {
            assert(p == crate::ast::PrimitiveType::Float32);
            let v = crate::lower::mangling::primitive_variant(PrimitiveType::Float32);
            assert(v =~= seq!['F', 'l', 'o', 'a', 't', '3', '2']);
            assert(n.drop_first() =~= seq!['3', '2']);
            assert(v.subrange(v.len() - (n.len() - 1), v.len() as int) =~= seq!['3', '2']);
            assert(seq!['3', '2'].drop_last() =~= seq!['3']);
            assert(seq!['3'].drop_last() =~= Seq::<char>::empty());
        } else if n == seq!['f', '6', '4'] {
            assert(p == crate::ast::PrimitiveType::Float64);
            let v = crate::lower::mangling::primitive_variant(PrimitiveType::Float64);
            assert(v =~= seq!['F', 'l', 'o', 'a', 't', '6', '4']);
            assert(n.drop_first() =~= seq!['6', '4']);
            assert(v.subrange(v.len() - (n.len() - 1), v.len() as int) =~= seq!['6', '4']);
            assert(seq!['6', '4'].drop_last() =~= seq!['6']);
            assert(seq!['6'].drop_last() =~= Seq::<char>::empty());
        } else if n == seq!['s', 't', 'r'] {
            assert(p == crate::ast::PrimitiveType::String);
            let v = crate::lower::mangling::primitive_variant(PrimitiveType::String);
            assert(v =~= seq!['S', 't', 'r', 'i', 'n', 'g']);
            assert(n.drop_first() =~= seq!['t', 'r']);
            assert(v.subrange(1, n.len() as int) =~= seq!['t', 'r']);
        } else if n == seq!['c', 'h', 'a', 'r'] {
            assert(p == crate::ast::PrimitiveType::Char);
            let v = crate::lower::mangling::primitive_variant(PrimitiveType::Char);
            assert(v =~= seq!['C', 'h', 'a', 'r']);
            assert(n.drop_first() =~= seq!['h', 'a', 'r']);
            assert(v.subrange(1, n.len() as int) =~= seq!['h', 'a', 'r']);
        } else if n == seq!['b', 'o', 'o', 'l'] {
            assert(p == crate::ast::PrimitiveType::Bool);
            let v = crate::lower::mangling::primitive_variant(PrimitiveType::Bool);
            assert(v =~= seq!['B', 'o', 'o', 'l']);
            assert(n.drop_first() =~= seq!['o', 'o', 'l']);
            assert(v.subrange(1, n.len() as int) =~= seq!['o', 'o', 'l']);
        }
    }
}

} // verus!
