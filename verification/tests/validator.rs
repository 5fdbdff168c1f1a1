use otter_fusion::hir::{FnId, HirFunction, HirParam, HirStruct, ModuleId, PrimitiveType, ResolvedType, TypeId, TypeParamId};
use otter_fusion::lower::subst::Subst;
use otter_fusion::validator::{
    format_named, format_type, is_managed_ref_type, is_numeric, signatures_match, substitute, types_compatible,
    universal_extend_mapping, ValidationError,
};

fn p(x: PrimitiveType) -> ResolvedType {
    ResolvedType::Primitive(x)
}

fn tp(i: u32) -> ResolvedType {
    ResolvedType::TypeParam(TypeParamId(i))
}

#[test]
fn messages_read_as_the_errors_say() {
    assert_eq!(
        ValidationError::DuplicateModule { name: "m".to_string() }.message(),
        "duplicate module 'm'"
    );
    assert_eq!(
        ValidationError::GenericArityMismatch {
            module: "main".to_string(),
            name: "Box".to_string(),
            expected: 1,
            actual: 12,
        }
        .message(),
        "type 'Box' in module 'main' expects 1 generic argument(s), got 12"
    );
    assert_eq!(
        ValidationError::TypeMismatch {
            function: "f".to_string(),
            context: "return".to_string(),
            expected: "int32".to_string(),
            actual: "bool".to_string(),
        }
        .message(),
        "type mismatch in function 'f' (return): expected 'int32', found 'bool'"
    );
    assert_eq!(
        ValidationError::PointerOutsideExtern { location: "field 'p'".to_string() }.message(),
        "pointer type '*T' is only allowed in extern declarations (field 'p')"
    );
    assert_eq!(
        ValidationError::ExternStructFieldManagedRef {
            type_label: "B".to_string(),
            field: "s".to_string(),
            ty: "string".to_string(),
        }
        .message(),
        "extern struct 'B' field 's' has GC-managed type 'string' (extern structs cannot hold managed refs \u{2014} GC can't trace them)"
    );
    assert_eq!(
        ValidationError::BreakOutsideLoop { function: "main".to_string() }.message(),
        "'break' used outside of a loop in function 'main'"
    );
    assert_eq!(
        ValidationError::CallArityMismatch {
            function: "main".to_string(),
            callee: "g".to_string(),
            expected: 0,
            actual: 3,
        }
        .message(),
        "call to 'g' in function 'main' expects 0 argument(s), got 3"
    );
}

#[test]
fn types_as_text() {
    assert_eq!(format_type(&p(PrimitiveType::Uint16)), "uint16");
    assert_eq!(format_type(&ResolvedType::Null), "null");
    assert_eq!(format_type(&tp(4)), "'tp4");
    assert_eq!(format_type(&ResolvedType::Struct(TypeId(3), vec![])), "struct#3");
    assert_eq!(
        format_type(&ResolvedType::Interface(TypeId(10), vec![p(PrimitiveType::Int32), p(PrimitiveType::String)])),
        "interface#10<int32, string>"
    );
    assert_eq!(
        format_type(&ResolvedType::Union(vec![p(PrimitiveType::Bool), ResolvedType::Null])),
        "bool | null"
    );
    assert_eq!(
        format_type(&ResolvedType::Function(vec![p(PrimitiveType::Char), tp(0)], Box::new(p(PrimitiveType::Float64)))),
        "(char, 'tp0) -> float64"
    );
    assert_eq!(format_type(&ResolvedType::Function(vec![], Box::new(ResolvedType::Null))), "() -> null");
    assert_eq!(format_named("struct", 7, &vec![tp(1)]), "struct#7<'tp1>");
}

#[test]
fn compatibility_is_equality_or_union_membership() {
    let i = p(PrimitiveType::Int64);
    let u = ResolvedType::Union(vec![p(PrimitiveType::Bool), p(PrimitiveType::Int64)]);
    assert!(types_compatible(&i, &i));
    assert!(types_compatible(&i, &u));
    assert!(types_compatible(&u, &u));
    assert!(!types_compatible(&u, &i));
    assert!(!types_compatible(&p(PrimitiveType::Int32), &u));
}

#[test]
fn numeric_primitives() {
    assert!(is_numeric(&p(PrimitiveType::Int8)));
    assert!(is_numeric(&p(PrimitiveType::Uint64)));
    assert!(is_numeric(&p(PrimitiveType::Float32)));
    assert!(!is_numeric(&p(PrimitiveType::Bool)));
    assert!(!is_numeric(&p(PrimitiveType::Char)));
    assert!(!is_numeric(&p(PrimitiveType::String)));
    assert!(!is_numeric(&ResolvedType::Null));
}

fn hstruct(id: u32, is_extern: bool) -> HirStruct {
    HirStruct {
        id: TypeId(id),
        module: ModuleId(0),
        name: format!("S{}", id),
        is_extern,
        type_params: vec![],
        fields: vec![],
        methods: vec![],
        specialised_methods: vec![],
        implements: vec![],
    }
}

#[test]
fn managed_references() {
    let structs = vec![hstruct(1, false), hstruct(2, true)];
    assert!(is_managed_ref_type(&p(PrimitiveType::String), &structs));
    assert!(!is_managed_ref_type(&p(PrimitiveType::Int32), &structs));
    assert!(is_managed_ref_type(&ResolvedType::Struct(TypeId(1), vec![]), &structs));
    assert!(!is_managed_ref_type(&ResolvedType::Struct(TypeId(2), vec![]), &structs));
    assert!(!is_managed_ref_type(&ResolvedType::Struct(TypeId(9), vec![]), &structs));
    assert!(is_managed_ref_type(&ResolvedType::Interface(TypeId(5), vec![]), &structs));
    assert!(is_managed_ref_type(
        &ResolvedType::Union(vec![ResolvedType::Null, p(PrimitiveType::String)]),
        &structs
    ));
    assert!(!is_managed_ref_type(&ResolvedType::Union(vec![ResolvedType::Null]), &structs));
    assert!(!is_managed_ref_type(&tp(0), &structs));
}

#[test]
fn substitution_through_the_validator() {
    let s = Subst::new(vec![TypeParamId(1)], vec![p(PrimitiveType::Bool)]);
    assert_eq!(
        substitute(&ResolvedType::Union(vec![tp(1), tp(2)]), &s),
        ResolvedType::Union(vec![p(PrimitiveType::Bool), tp(2)])
    );
}

#[test]
fn universal_extend_mapping_renames_position_by_position() {
    let m = universal_extend_mapping(&[tp(10), tp(11)], &[TypeParamId(0), TypeParamId(1)]).unwrap();
    assert_eq!(m.apply(&tp(10)), tp(0));
    assert_eq!(m.apply(&tp(11)), tp(1));
    assert_eq!(m.apply(&tp(12)), tp(12));
    assert!(universal_extend_mapping(&[tp(10)], &[TypeParamId(0), TypeParamId(1)]).is_none());
    assert!(universal_extend_mapping(&[tp(10), tp(10)], &[TypeParamId(0), TypeParamId(1)]).is_none());
    assert!(universal_extend_mapping(&[p(PrimitiveType::Int32)], &[TypeParamId(0)]).is_none());
    assert!(universal_extend_mapping(&[], &[]).is_some());
}

fn func(has_self: bool, tps: Vec<u32>, params: Vec<(ResolvedType, bool)>, ret: ResolvedType) -> HirFunction {
    HirFunction {
        id: FnId(0),
        module: ModuleId(0),
        name: "m".to_string(),
        owner: None,
        has_self,
        type_params: tps.into_iter().map(TypeParamId).collect(),
        params: params
            .into_iter()
            .enumerate()
            .map(|(i, (ty, is_pointer))| HirParam { name: format!("a{}", i), ty, is_pointer })
            .collect(),
        return_type: ret,
        body: None,
    }
}

#[test]
fn signatures_match_under_substitution() {
    let none = Subst::new(vec![], vec![]);
    // interface I<T> { function get(self, x: T): T } seen for I<i32>
    let iface = func(true, vec![], vec![(tp(0), false)], tp(0));
    let iface_subst = Subst::new(vec![TypeParamId(0)], vec![p(PrimitiveType::Int32)]);
    let provider = func(true, vec![], vec![(p(PrimitiveType::Int32), false)], p(PrimitiveType::Int32));
    assert!(signatures_match(&iface, &provider, &iface_subst, &none));
    let wrong_ret = func(true, vec![], vec![(p(PrimitiveType::Int32), false)], p(PrimitiveType::Bool));
    assert!(!signatures_match(&iface, &wrong_ret, &iface_subst, &none));
    let no_self = func(false, vec![], vec![(p(PrimitiveType::Int32), false)], p(PrimitiveType::Int32));
    assert!(!signatures_match(&iface, &no_self, &iface_subst, &none));
    let pointer = func(true, vec![], vec![(p(PrimitiveType::Int32), true)], p(PrimitiveType::Int32));
    assert!(!signatures_match(&iface, &pointer, &iface_subst, &none));
    // A generic method: the interface's own type parameter is read as the provider's.
    let g_iface = func(false, vec![5], vec![(tp(5), false)], ResolvedType::Null);
    let g_provider = func(false, vec![9], vec![(tp(9), false)], ResolvedType::Null);
    assert!(signatures_match(&g_iface, &g_provider, &none, &none));
    let g_other = func(false, vec![], vec![(tp(9), false)], ResolvedType::Null);
    assert!(!signatures_match(&g_iface, &g_other, &none, &none));
}
