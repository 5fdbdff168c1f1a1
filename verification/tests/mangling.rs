use otter_fusion::hir::{
    FnId, Hir, HirFunction, HirInterface, HirModule, HirStruct, ModuleId, PrimitiveType, ResolvedType, TypeId,
};
use otter_fusion::lower::mangling::{name_function, name_interface, name_struct, name_type};

fn sample_hir() -> Hir {
    Hir {
        modules: vec![HirModule {
            id: ModuleId(0),
            name: "net".to_string(),
            structs: vec![TypeId(1), TypeId(2)],
            interfaces: vec![TypeId(3)],
            functions: vec![FnId(0), FnId(1)],
            imports: vec![],
        }],
        structs: vec![
            HirStruct {
                id: TypeId(1),
                module: ModuleId(0),
                name: "TcpListener".to_string(),
                is_extern: false,
                type_params: vec![],
                fields: vec![],
                methods: vec![FnId(0)],
                specialised_methods: vec![],
                implements: vec![],
            },
            HirStruct {
                id: TypeId(2),
                module: ModuleId(0),
                name: "Box".to_string(),
                is_extern: false,
                type_params: vec![],
                fields: vec![],
                methods: vec![],
                specialised_methods: vec![],
                implements: vec![],
            },
        ],
        interfaces: vec![HirInterface {
            id: TypeId(3),
            module: ModuleId(0),
            name: "Reader".to_string(),
            type_params: vec![],
            fields: vec![],
            methods: vec![],
            extends: vec![],
        }],
        functions: vec![
            HirFunction {
                id: FnId(0),
                module: ModuleId(0),
                name: "close".to_string(),
                owner: Some(TypeId(1)),
                has_self: true,
                type_params: vec![],
                params: vec![],
                return_type: ResolvedType::Null,
                body: None,
            },
            HirFunction {
                id: FnId(1),
                module: ModuleId(0),
                name: "listen".to_string(),
                owner: None,
                has_self: false,
                type_params: vec![],
                params: vec![],
                return_type: ResolvedType::Null,
                body: None,
            },
        ],
        type_params: vec![],
    }
}

fn i32t() -> ResolvedType {
    ResolvedType::Primitive(PrimitiveType::Int32)
}

#[test]
fn struct_and_interface_symbols() {
    let hir = sample_hir();
    assert_eq!(name_struct(&hir, &hir.structs[1], &vec![]), "net::Box");
    assert_eq!(name_struct(&hir, &hir.structs[1], &vec![i32t(), ResolvedType::Null]), "net::Box<Int32,Null>");
    assert_eq!(
        name_interface(&hir, &ResolvedType::Interface(TypeId(3), vec![]), &vec![i32t()]),
        "net::Reader<Int32>"
    );
}

#[test]
fn function_symbols_carry_the_owner() {
    let hir = sample_hir();
    assert_eq!(name_function(&hir, FnId(0), &vec![]), "net::TcpListener::close");
    assert_eq!(name_function(&hir, FnId(1), &vec![i32t()]), "net::listen<Int32>");
}

#[test]
fn type_symbols() {
    let hir = sample_hir();
    let boxed = ResolvedType::Struct(TypeId(2), vec![ResolvedType::Primitive(PrimitiveType::Float64)]);
    assert_eq!(name_type(&hir, &boxed, &[]), "net::Box<Float64>");
    assert_eq!(
        name_type(&hir, &ResolvedType::Union(vec![i32t(), ResolvedType::Null]), &[]),
        "Union<Int32|Null>"
    );
    assert_eq!(
        name_type(&hir, &ResolvedType::Function(vec![i32t(), boxed], Box::new(ResolvedType::Null)), &[]),
        "Function<Int32,net::Box<Float64>, Null>"
    );
    assert_eq!(
        name_type(&hir, &ResolvedType::Interface(TypeId(3), vec![]), &[]),
        "net::Reader"
    );
}
