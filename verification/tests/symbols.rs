use otter_fusion::codegen::symbols::{
    closure_env_type, const_mir_type, field_offsets, is_float, is_signed, mir_align, mir_size, sanitize,
    symbol_for, Linkage,
};
use otter_fusion::hir::PrimitiveType;
use otter_fusion::mir::{
    Abi, BlockId, Layout, MirConst, MirField, MirFnId, MirFunction, MirProgram, MirType, MirTypeDef, MirTypeId,
    StructKind,
};

fn func(name: &str, abi: Abi) -> MirFunction {
    MirFunction {
        id: MirFnId(0),
        name: name.to_string(),
        abi,
        params: vec![],
        locals: vec![],
        blocks: vec![],
        entry: BlockId(0),
        return_type: MirType::Primitive(PrimitiveType::Bool),
    }
}

#[test]
fn sanitize_replaces_unsafe_chars() {
    assert_eq!(sanitize("add<i32>"), "add_i32_");
    assert_eq!(sanitize("a.b$c_9"), "a.b$c_9");
    assert_eq!(sanitize("é"), "_");
}

#[test]
fn symbols_and_linkage() {
    let f = func("net::Box<Int32>::get", Abi::Otter);
    assert_eq!(symbol_for(MirFnId(7), &f, MirFnId(0)), ("net__Box_Int32___get__7".to_string(), Linkage::Local));
    assert_eq!(symbol_for(MirFnId(0), &f, MirFnId(0)), ("otter_main".to_string(), Linkage::Export));
    let c = func("puts", Abi::Extern);
    assert_eq!(symbol_for(MirFnId(3), &c, MirFnId(0)), ("puts".to_string(), Linkage::Import));
}

#[test]
fn sizes_and_classes() {
    assert_eq!(mir_align(&MirType::Primitive(PrimitiveType::Int16)), 2);
    assert_eq!(mir_size(&MirType::Primitive(PrimitiveType::String)), 8);
    assert_eq!(mir_align(&MirType::Union(MirTypeId(1))), 8);
    assert!(is_float(&MirType::Primitive(PrimitiveType::Float32)));
    assert!(!is_float(&MirType::Primitive(PrimitiveType::Int32)));
    assert!(is_signed(&MirType::Primitive(PrimitiveType::Int64)));
    assert!(!is_signed(&MirType::Primitive(PrimitiveType::Uint64)));
    assert_eq!(const_mir_type(&MirConst::Char('x')), MirType::Primitive(PrimitiveType::Char));
    assert_eq!(const_mir_type(&MirConst::Null), MirType::Primitive(PrimitiveType::Bool));
    assert_eq!(const_mir_type(&MirConst::Float(0, PrimitiveType::Float32)), MirType::Primitive(PrimitiveType::Float32));
}

fn program() -> MirProgram {
    MirProgram {
        types: vec![
            MirTypeDef::Struct {
                name: "S".to_string(),
                fields: vec![
                    MirField { name: "a".to_string(), ty: MirType::Primitive(PrimitiveType::Bool) },
                    MirField { name: "b".to_string(), ty: MirType::Primitive(PrimitiveType::Int64) },
                    MirField { name: "c".to_string(), ty: MirType::Primitive(PrimitiveType::Int16) },
                ],
                layout: Layout { size: 24, align: 8 },
                kind: StructKind::Managed,
            },
            MirTypeDef::Closure {
                env_fields: vec![MirField { name: "x".to_string(), ty: MirType::Primitive(PrimitiveType::Int32) }],
                function: MirFnId(5),
                layout: Layout { size: 4, align: 4 },
            },
        ],
        functions: vec![],
        vtables: vec![],
        entry: MirFnId(0),
    }
}

#[test]
fn offsets_of_aggregates() {
    let p = program();
    assert_eq!(field_offsets(&p, MirTypeId(0)), vec![0, 8, 16]);
    assert_eq!(field_offsets(&p, MirTypeId(1)), vec![0]);
}

#[test]
fn closure_environment_lookup() {
    let p = program();
    assert_eq!(closure_env_type(&p, MirFnId(5)), MirTypeId(1));
}
