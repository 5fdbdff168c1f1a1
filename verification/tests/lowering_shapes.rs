use otter_fusion::hir::{
    FnId, Hir, HirCapture, HirFunction, HirParam, HirStruct, ModuleId, PrimitiveType, ResolvedType, TypeId, TypeParamId,
};
use otter_fusion::hir::{HirField, HirInterface, HirModule};
use otter_fusion::lower::mono::{ForKind, Lower};
use otter_fusion::lower::functions::{
    extern_import, finish_function, function_entry, function_subst, struct_def, struct_interfaces,
};
use otter_fusion::mir::{Layout, MirTypeDef, StructKind};
use otter_fusion::lower::builder::FnBuilder;
use otter_fusion::lower::casts::{lower_as_checked, lower_is_checked};
use otter_fusion::lower::closures::{alloc_closure, closure_prologue};
use otter_fusion::lower::for_loops::{
    close_iterator_loop, open_iterator_loop, open_list_loop, open_map_loop, MapIteration,
};
use otter_fusion::lower::control::{close_if_arm, lower_break, lower_continue, lower_return, lower_var_decl, open_if};
use otter_fusion::lower::loops::{branch_while_loop, close_index_loop, open_while_loop};
use otter_fusion::mir::{
    Abi, AssignValue, BinOp, BlockId, Callee, LocalId, MirConst, MirFnId, MirType, MirTypeId, Operand, Stmt,
    Terminator, TrapReason,
};

fn builder() -> FnBuilder {
    FnBuilder::new(MirFnId(3), "f".to_string(), Abi::Otter, MirType::Primitive(PrimitiveType::Int32))
}

fn int32() -> MirType {
    MirType::Primitive(PrimitiveType::Int32)
}

#[test]
fn as_on_a_union_tests_the_tag_and_reads_the_payload() {
    let mut b = builder();
    let r = lower_as_checked(
        Operand::Copy(LocalId(9)),
        &MirType::Union(MirTypeId(4)),
        &ResolvedType::Struct(TypeId(1), vec![]),
        &MirType::ManagedRef(MirTypeId(7)),
        2,
        MirType::ManagedRef(MirTypeId(7)),
        &mut b,
    );
    assert!(matches!(r, Operand::Copy(LocalId(0))));
    assert_eq!(b.locals.len(), 4);
    assert_eq!(b.locals[0].ty, MirType::ManagedRef(MirTypeId(7)));
    assert_eq!(b.locals[1].ty, MirType::Primitive(PrimitiveType::Uint16));
    assert_eq!(b.locals[3].ty, MirType::Primitive(PrimitiveType::Bool));
    assert_eq!(b.blocks.len(), 4);
    let entry = &b.blocks[0].stmts;
    assert_eq!(entry.len(), 3);
    assert!(matches!(&entry[0], Stmt::Assign(LocalId(1), AssignValue::UnionTag(Operand::Copy(LocalId(9))))));
    assert!(matches!(
        &entry[1],
        Stmt::Assign(LocalId(2), AssignValue::Use(Operand::Const(MirConst::Int(2, PrimitiveType::Uint16))))
    ));
    assert!(matches!(
        &entry[2],
        Stmt::Assign(LocalId(3), AssignValue::Bin(BinOp::Eq, Operand::Copy(LocalId(1)), Operand::Copy(LocalId(2))))
    ));
    assert!(matches!(
        &b.blocks[0].terminator,
        Terminator::CondBr(Operand::Copy(LocalId(3)), BlockId(1), BlockId(2))
    ));
    assert!(matches!(
        &b.blocks[1].stmts[0],
        Stmt::Assign(LocalId(0), AssignValue::UnionPayload(Operand::Copy(LocalId(9)), MirTypeId(7)))
    ));
    assert!(matches!(&b.blocks[1].terminator, Terminator::Goto(BlockId(3))));
    assert!(b.blocks[2].stmts.is_empty());
    assert!(matches!(&b.blocks[2].terminator, Terminator::Trap(TrapReason::AsMismatch)));
    assert!(matches!(&b.blocks[3].terminator, Terminator::Unreachable));
    assert_eq!(b.current_block, BlockId(3));
}

#[test]
fn as_on_a_union_reads_a_primitive_payload_as_the_union() {
    let mut b = builder();
    lower_as_checked(
        Operand::Copy(LocalId(9)),
        &MirType::Union(MirTypeId(4)),
        &ResolvedType::Primitive(PrimitiveType::Int32),
        &int32(),
        0,
        int32(),
        &mut b,
    );
    assert!(matches!(
        &b.blocks[1].stmts[0],
        Stmt::Assign(LocalId(0), AssignValue::UnionPayload(Operand::Copy(LocalId(9)), MirTypeId(4)))
    ));
}

#[test]
fn as_on_a_nullable_reference_compares_with_null() {
    let mut b = builder();
    lower_as_checked(
        Operand::Copy(LocalId(9)),
        &MirType::NullableRef(MirTypeId(4)),
        &ResolvedType::Null,
        &MirType::Primitive(PrimitiveType::Bool),
        0,
        MirType::NullableRef(MirTypeId(4)),
        &mut b,
    );
    assert_eq!(b.locals.len(), 2);
    assert!(matches!(
        &b.blocks[0].stmts[0],
        Stmt::Assign(LocalId(1), AssignValue::Bin(BinOp::Eq, Operand::Copy(LocalId(9)), Operand::Const(MirConst::Null)))
    ));
    assert!(matches!(&b.blocks[1].stmts[0], Stmt::Assign(LocalId(0), AssignValue::Use(Operand::Copy(LocalId(9))))));

    let mut b = builder();
    lower_as_checked(
        Operand::Copy(LocalId(9)),
        &MirType::NullableRef(MirTypeId(4)),
        &ResolvedType::Struct(TypeId(1), vec![]),
        &MirType::ManagedRef(MirTypeId(4)),
        0,
        MirType::ManagedRef(MirTypeId(4)),
        &mut b,
    );
    assert!(matches!(
        &b.blocks[0].stmts[0],
        Stmt::Assign(LocalId(1), AssignValue::Bin(BinOp::Neq, Operand::Copy(LocalId(9)), Operand::Const(MirConst::Null)))
    ));
}

#[test]
fn as_on_a_static_type_passes_the_value_through() {
    let mut b = builder();
    lower_as_checked(
        Operand::Copy(LocalId(9)),
        &MirType::ManagedRef(MirTypeId(4)),
        &ResolvedType::Struct(TypeId(1), vec![]),
        &MirType::ManagedRef(MirTypeId(4)),
        0,
        MirType::ManagedRef(MirTypeId(4)),
        &mut b,
    );
    assert_eq!(b.locals.len(), 1);
    assert!(b.blocks[0].stmts.is_empty());
    assert!(matches!(&b.blocks[0].terminator, Terminator::Goto(BlockId(1))));
    assert!(matches!(&b.blocks[2].terminator, Terminator::Trap(TrapReason::AsMismatch)));
}

#[test]
fn is_compares_tags_nulls_or_types() {
    let mut b = builder();
    let r = lower_is_checked(
        Operand::Copy(LocalId(9)),
        &ResolvedType::Null,
        &MirType::Union(MirTypeId(4)),
        &ResolvedType::Null,
        1,
        &mut b,
    );
    assert!(matches!(r, Operand::Copy(LocalId(0))));
    assert_eq!(b.blocks.len(), 1);
    assert_eq!(b.blocks[0].stmts.len(), 3);
    assert!(matches!(
        &b.blocks[0].stmts[2],
        Stmt::Assign(LocalId(0), AssignValue::Bin(BinOp::Eq, Operand::Copy(LocalId(1)), Operand::Copy(LocalId(2))))
    ));

    let mut b = builder();
    lower_is_checked(
        Operand::Copy(LocalId(9)),
        &ResolvedType::Null,
        &MirType::NullableRef(MirTypeId(4)),
        &ResolvedType::Struct(TypeId(1), vec![]),
        0,
        &mut b,
    );
    assert!(matches!(
        &b.blocks[0].stmts[0],
        Stmt::Assign(LocalId(0), AssignValue::Bin(BinOp::Neq, Operand::Copy(LocalId(9)), Operand::Const(MirConst::Null)))
    ));

    let same = ResolvedType::Struct(TypeId(1), vec![ResolvedType::Primitive(PrimitiveType::Int32)]);
    let other = ResolvedType::Struct(TypeId(1), vec![ResolvedType::Primitive(PrimitiveType::Int64)]);
    let mut b = builder();
    lower_is_checked(Operand::Copy(LocalId(9)), &same, &MirType::ManagedRef(MirTypeId(4)), &same, 0, &mut b);
    lower_is_checked(Operand::Copy(LocalId(9)), &same, &MirType::ManagedRef(MirTypeId(4)), &other, 0, &mut b);
    assert!(matches!(
        &b.blocks[0].stmts[0],
        Stmt::Assign(LocalId(0), AssignValue::Use(Operand::Const(MirConst::Bool(true))))
    ));
    assert!(matches!(
        &b.blocks[0].stmts[1],
        Stmt::Assign(LocalId(1), AssignValue::Use(Operand::Const(MirConst::Bool(false))))
    ));
}

#[test]
fn a_list_loop_reads_each_element_and_binds_it() {
    let mut b = builder();
    let lp = open_list_loop(
        &mut b,
        "x".to_string(),
        Operand::Copy(LocalId(7)),
        MirType::ManagedRef(MirTypeId(2)),
        MirFnId(10),
        MirFnId(11),
        MirType::Union(MirTypeId(5)),
        int32(),
    );
    assert_eq!(lp.index, LocalId(2));
    assert_eq!((lp.head, lp.body, lp.cont, lp.exit), (BlockId(1), BlockId(2), BlockId(3), BlockId(4)));
    assert_eq!(b.locals[0].name.as_deref(), Some("__it"));
    assert_eq!(b.locals[5].name.as_deref(), Some("x"));
    let entry = &b.blocks[0].stmts;
    assert_eq!(entry.len(), 3);
    assert!(matches!(&entry[0], Stmt::Assign(LocalId(0), AssignValue::Use(Operand::Copy(LocalId(7))))));
    match &entry[1] {
        Stmt::Assign(LocalId(1), AssignValue::Call(Callee::Static(MirFnId(10)), args)) => {
            assert!(matches!(args.as_slice(), [Operand::Copy(LocalId(0))]));
        },
        other => panic!("unexpected {:?}", other),
    }
    let body = &b.blocks[2].stmts;
    match &body[0] {
        Stmt::Assign(LocalId(4), AssignValue::Call(Callee::Static(MirFnId(11)), args)) => {
            assert!(matches!(args.as_slice(), [Operand::Copy(LocalId(0)), Operand::Copy(LocalId(2))]));
        },
        other => panic!("unexpected {:?}", other),
    }
    assert!(matches!(
        &body[1],
        Stmt::Assign(LocalId(5), AssignValue::UnionPayload(Operand::Copy(LocalId(4)), MirTypeId(5)))
    ));
    assert_eq!(b.lookup("x"), Some(LocalId(5)));
    assert_eq!(b.current_block, BlockId(2));
    close_index_loop(&mut b, &lp);
    assert!(matches!(&b.blocks[2].terminator, Terminator::Goto(BlockId(3))));
    assert_eq!(b.current_block, BlockId(4));
}

#[test]
fn a_map_loop_builds_an_entry_per_key() {
    let mut b = builder();
    let parts = MapIteration {
        keys_fn: MirFnId(20),
        size_fn: MirFnId(21),
        key_get_fn: MirFnId(22),
        value_get_fn: MirFnId(23),
        map_mty: MirType::ManagedRef(MirTypeId(1)),
        keys_mty: MirType::ManagedRef(MirTypeId(2)),
        key_got_mty: MirType::NullableRef(MirTypeId(3)),
        key_mty: MirType::ManagedRef(MirTypeId(3)),
        value_got_mty: MirType::Union(MirTypeId(6)),
        value_mty: int32(),
        entry: MirTypeId(8),
    };
    let lp = open_map_loop(&mut b, "e".to_string(), Operand::Copy(LocalId(7)), parts);
    assert_eq!(lp.index, LocalId(3));
    assert_eq!(b.locals.len(), 10);
    assert_eq!(b.locals[1].name.as_deref(), Some("__keys"));
    assert_eq!(b.locals[9].ty, MirType::ManagedRef(MirTypeId(8)));
    let body = &b.blocks[2].stmts;
    assert_eq!(body.len(), 5);
    assert!(matches!(&body[1], Stmt::Assign(LocalId(6), AssignValue::Use(Operand::Copy(LocalId(5))))));
    match &body[2] {
        Stmt::Assign(LocalId(7), AssignValue::Call(Callee::Static(MirFnId(23)), args)) => {
            assert!(matches!(args.as_slice(), [Operand::Copy(LocalId(0)), Operand::Copy(LocalId(6))]));
        },
        other => panic!("unexpected {:?}", other),
    }
    assert!(matches!(
        &body[3],
        Stmt::Assign(LocalId(8), AssignValue::UnionPayload(Operand::Copy(LocalId(7)), MirTypeId(6)))
    ));
    match &body[4] {
        Stmt::Assign(LocalId(9), AssignValue::AllocStruct(MirTypeId(8), fields)) => {
            assert!(matches!(fields.as_slice(), [Operand::Copy(LocalId(6)), Operand::Copy(LocalId(8))]));
        },
        other => panic!("unexpected {:?}", other),
    }
    assert_eq!(b.lookup("e"), Some(LocalId(9)));
}

#[test]
fn an_iterator_loop_calls_next_until_null() {
    let mut b = builder();
    let lp = open_iterator_loop(
        &mut b,
        "x".to_string(),
        Operand::Copy(LocalId(7)),
        MirType::ManagedRef(MirTypeId(1)),
        MirTypeId(2),
        0,
        MirType::Union(MirTypeId(3)),
        1,
        int32(),
    );
    assert_eq!((lp.head, lp.setup, lp.body, lp.exit), (BlockId(1), BlockId(2), BlockId(3), BlockId(4)));
    let head = &b.blocks[1].stmts;
    assert_eq!(head.len(), 3);
    match &head[0] {
        Stmt::Assign(LocalId(1), AssignValue::Call(Callee::Virtual(Operand::Copy(LocalId(0)), MirTypeId(2), 0), args)) => {
            assert!(matches!(args.as_slice(), [Operand::Copy(LocalId(0))]));
        },
        other => panic!("unexpected {:?}", other),
    }
    assert!(matches!(
        &head[2],
        Stmt::Assign(LocalId(3), AssignValue::Bin(BinOp::Eq, Operand::Copy(LocalId(2)), Operand::Const(MirConst::Int(1, PrimitiveType::Uint16))))
    ));
    assert!(matches!(
        &b.blocks[1].terminator,
        Terminator::CondBr(Operand::Copy(LocalId(3)), BlockId(4), BlockId(2))
    ));
    assert!(matches!(
        &b.blocks[2].stmts[0],
        Stmt::Assign(LocalId(4), AssignValue::UnionPayload(Operand::Copy(LocalId(1)), MirTypeId(3)))
    ));
    assert_eq!(b.lookup("x"), Some(LocalId(4)));
    close_iterator_loop(&mut b, &lp);
    assert!(matches!(&b.blocks[3].terminator, Terminator::Goto(BlockId(1))));
    assert_eq!(b.current_block, BlockId(4));
    assert!(b.loop_stack.is_empty());
}

#[test]
fn a_closure_reads_its_captures_out_of_its_environment() {
    let mut b = builder();
    let params = vec![
        HirParam { name: "a".to_string(), ty: ResolvedType::Primitive(PrimitiveType::Int32), is_pointer: false },
        HirParam { name: "p".to_string(), ty: ResolvedType::Primitive(PrimitiveType::Int32), is_pointer: true },
    ];
    let captures = vec![
        HirCapture { name: "k".to_string(), ty: ResolvedType::Primitive(PrimitiveType::Int64) },
        HirCapture { name: "a".to_string(), ty: ResolvedType::Primitive(PrimitiveType::Bool) },
    ];
    let env = closure_prologue(
        &mut b,
        MirTypeId(9),
        &params,
        vec![int32(), int32()],
        &captures,
        vec![MirType::Primitive(PrimitiveType::Int64), MirType::Primitive(PrimitiveType::Bool)],
    );
    assert_eq!(env, LocalId(0));
    assert_eq!(b.params, vec![LocalId(0), LocalId(1), LocalId(2)]);
    assert_eq!(b.locals[0].ty, MirType::ManagedRef(MirTypeId(9)));
    assert_eq!(b.locals[2].ty, MirType::Pointer(Box::new(int32())));
    assert!(matches!(&b.blocks[0].stmts[0], Stmt::Assign(LocalId(3), AssignValue::Field(Operand::Copy(LocalId(0)), 0))));
    assert!(matches!(&b.blocks[0].stmts[1], Stmt::Assign(LocalId(4), AssignValue::Field(Operand::Copy(LocalId(0)), 1))));
    // A capture named like a parameter hides it.
    assert_eq!(b.lookup("a"), Some(LocalId(4)));
    assert_eq!(b.lookup("p"), Some(LocalId(2)));
    let r = alloc_closure(&mut b, MirFnId(5), vec![Operand::Copy(LocalId(3))], MirType::Closure(MirTypeId(9)));
    assert!(matches!(r, Operand::Copy(LocalId(5))));
    assert!(matches!(&b.blocks[0].stmts[2], Stmt::Assign(LocalId(5), AssignValue::AllocClosure(MirFnId(5), _))));
}

fn int_ty() -> ResolvedType {
    ResolvedType::Primitive(PrimitiveType::Int32)
}

fn method(id: u32, owner: Option<TypeId>, type_params: Vec<TypeParamId>) -> HirFunction {
    HirFunction {
        id: FnId(id),
        module: ModuleId(1),
        name: "m".to_string(),
        owner,
        has_self: true,
        type_params,
        params: vec![
            HirParam { name: "a".to_string(), ty: int_ty(), is_pointer: false },
            HirParam { name: "b".to_string(), ty: int_ty(), is_pointer: true },
        ],
        return_type: int_ty(),
        body: None,
    }
}

fn generic_struct() -> HirStruct {
    HirStruct {
        id: TypeId(4),
        module: ModuleId(1),
        name: "Box".to_string(),
        is_extern: false,
        type_params: vec![TypeParamId(1)],
        fields: vec![],
        methods: vec![],
        specialised_methods: vec![
            (vec![int_ty()], FnId(7)),
            (vec![ResolvedType::TypeParam(TypeParamId(8))], FnId(7)),
        ],
        implements: vec![],
    }
}

#[test]
fn a_method_body_binds_owner_aliases_and_its_own_parameters() {
    let hir = Hir { modules: vec![], structs: vec![generic_struct()], interfaces: vec![], functions: vec![], type_params: vec![] };
    let f = method(7, Some(TypeId(4)), vec![TypeParamId(2)]);
    let s = function_subst(&hir, &f, &vec![ResolvedType::Primitive(PrimitiveType::Bool), int_ty()]);
    assert_eq!(s.apply(&ResolvedType::TypeParam(TypeParamId(1))), ResolvedType::Primitive(PrimitiveType::Bool));
    assert_eq!(s.apply(&ResolvedType::TypeParam(TypeParamId(8))), ResolvedType::Primitive(PrimitiveType::Bool));
    assert_eq!(s.apply(&ResolvedType::TypeParam(TypeParamId(2))), int_ty());
    assert_eq!(s.apply(&ResolvedType::TypeParam(TypeParamId(3))), ResolvedType::TypeParam(TypeParamId(3)));

    // Another function of the same struct gets no alias.
    let g = method(6, Some(TypeId(4)), vec![]);
    let s = function_subst(&hir, &g, &vec![int_ty()]);
    assert_eq!(s.apply(&ResolvedType::TypeParam(TypeParamId(8))), ResolvedType::TypeParam(TypeParamId(8)));
    assert_eq!(s.apply(&ResolvedType::TypeParam(TypeParamId(1))), int_ty());
}

#[test]
fn a_function_entry_binds_its_parameters_and_self_first() {
    let f = method(7, Some(TypeId(4)), vec![]);
    let b = function_entry(MirFnId(2), "Box_m".to_string(), int32(), &f, vec![int32(), int32()], MirTypeId(6));
    assert_eq!(b.params, vec![LocalId(2), LocalId(0), LocalId(1)]);
    assert_eq!(b.locals[2].name.as_deref(), Some("self"));
    assert_eq!(b.locals[2].ty, MirType::ManagedRef(MirTypeId(6)));
    assert_eq!(b.lookup("b"), Some(LocalId(1)));
    assert_eq!(b.lookup("self"), Some(LocalId(2)));
    let out = finish_function(b, Some(Operand::Copy(LocalId(0))));
    assert!(matches!(&out.blocks[0].terminator, Terminator::Return(Some(Operand::Copy(LocalId(0))))));
    assert_eq!(out.abi, Abi::Otter);
}

#[test]
fn an_extern_import_declares_pointer_parameters_and_no_blocks() {
    let mut f = method(7, None, vec![]);
    f.has_self = false;
    let out = extern_import(MirFnId(2), &f, int32(), vec![int32(), int32()]);
    assert_eq!(out.name, "m");
    assert_eq!(out.abi, Abi::Extern);
    assert!(out.blocks.is_empty());
    assert_eq!(out.params, vec![LocalId(0), LocalId(1)]);
    assert_eq!(out.locals[0].ty, int32());
    assert_eq!(out.locals[1].ty, MirType::Pointer(Box::new(int32())));
}

fn struct_with_fields(is_extern: bool) -> HirStruct {
    let mut s = generic_struct();
    s.is_extern = is_extern;
    s.fields = vec![
        HirField { name: "a".to_string(), ty: int_ty(), is_pointer: false },
        HirField { name: "b".to_string(), ty: int_ty(), is_pointer: true },
    ];
    s.implements = vec![(TypeId(9), vec![ResolvedType::TypeParam(TypeParamId(1)), int_ty()])];
    s
}

fn one_module() -> Hir {
    Hir {
        modules: vec![HirModule {
            id: ModuleId(1),
            name: "main".to_string(),
            structs: vec![],
            interfaces: vec![],
            functions: vec![],
            imports: vec![],
        }],
        structs: vec![],
        interfaces: vec![],
        functions: vec![],
        type_params: vec![],
    }
}

#[test]
fn a_struct_instance_lays_out_its_fields_in_order() {
    let hir = one_module();
    let s = struct_with_fields(false);
    let def = struct_def(&hir, &s, &vec![], vec![int32(), MirType::Primitive(PrimitiveType::Int64)]);
    match def {
        MirTypeDef::Struct { name, fields, layout, kind } => {
            assert_eq!(name, "main::Box");
            assert_eq!(fields.len(), 2);
            assert_eq!(fields[1].name, "b");
            assert_eq!(fields[1].ty, MirType::Primitive(PrimitiveType::Int64));
            assert_eq!(layout, Layout { size: 16, align: 8 });
            assert_eq!(kind, StructKind::Managed);
        },
        other => panic!("unexpected {:?}", other),
    }
}

#[test]
fn an_extern_struct_keeps_pointer_fields_behind_pointers() {
    let hir = one_module();
    let s = struct_with_fields(true);
    let def = struct_def(&hir, &s, &vec![], vec![int32(), int32()]);
    match def {
        MirTypeDef::Struct { fields, layout, kind, .. } => {
            assert_eq!(fields[0].ty, int32());
            assert_eq!(fields[1].ty, MirType::Pointer(Box::new(int32())));
            assert_eq!(layout, Layout { size: 16, align: 8 });
            assert_eq!(kind, StructKind::Extern);
        },
        other => panic!("unexpected {:?}", other),
    }
}

#[test]
fn a_struct_instance_implements_its_interfaces_under_its_arguments() {
    let s = struct_with_fields(false);
    let r = struct_interfaces(&s, &vec![ResolvedType::Primitive(PrimitiveType::Bool)]);
    assert_eq!(r.len(), 1);
    assert_eq!(r[0].0, TypeId(9));
    assert_eq!(r[0].1, vec![ResolvedType::Primitive(PrimitiveType::Bool), int_ty()]);
}

fn core_program() -> Hir {
    let module = |id: u32, name: &str| HirModule {
        id: ModuleId(id),
        name: name.to_string(),
        structs: vec![],
        interfaces: vec![],
        functions: vec![],
        imports: vec![],
    };
    let mut list = generic_struct();
    list.id = TypeId(1);
    list.module = ModuleId(0);
    list.name = "List".to_string();
    let mut map = generic_struct();
    map.id = TypeId(2);
    map.module = ModuleId(0);
    map.name = "Map".to_string();
    let mut range = generic_struct();
    range.id = TypeId(3);
    range.module = ModuleId(1);
    range.name = "Range".to_string();
    range.implements = vec![(TypeId(5), vec![ResolvedType::TypeParam(TypeParamId(1))])];
    Hir {
        modules: vec![module(0, "of:core"), module(1, "main")],
        structs: vec![list, map, range],
        interfaces: vec![HirInterface {
            id: TypeId(5),
            module: ModuleId(0),
            name: "Iterator".to_string(),
            type_params: vec![TypeParamId(4)],
            fields: vec![],
            methods: vec![],
            extends: vec![],
        }],
        functions: vec![],
        type_params: vec![],
    }
}

#[test]
fn a_for_loop_picks_lists_maps_then_iterators() {
    let l = Lower::new(core_program());
    assert!(matches!(l.for_loop_kind(&ResolvedType::Struct(TypeId(1), vec![int_ty()])), ForKind::List(t) if t == int_ty()));
    assert!(matches!(
        l.for_loop_kind(&ResolvedType::Struct(TypeId(2), vec![int_ty(), ResolvedType::Primitive(PrimitiveType::Bool)])),
        ForKind::KeyedMap(k, v) if k == int_ty() && v == ResolvedType::Primitive(PrimitiveType::Bool)
    ));
    assert!(matches!(l.for_loop_kind(&ResolvedType::Struct(TypeId(1), vec![])), ForKind::Iterator));
    assert!(matches!(l.for_loop_kind(&ResolvedType::Struct(TypeId(3), vec![int_ty()])), ForKind::Iterator));
}

#[test]
fn an_iterator_yields_its_argument_under_the_struct_arguments() {
    let l = Lower::new(core_program());
    assert_eq!(l.iterator_element_for(&ResolvedType::Interface(TypeId(5), vec![int_ty()])), int_ty());
    assert_eq!(
        l.iterator_element_for(&ResolvedType::Struct(TypeId(3), vec![ResolvedType::Primitive(PrimitiveType::Bool)])),
        ResolvedType::Primitive(PrimitiveType::Bool)
    );
}

#[test]
fn return_break_and_continue_end_the_block_and_open_a_new_one() {
    let mut b = builder();
    let lp = open_while_loop(&mut b);
    branch_while_loop(&mut b, &lp, Operand::Const(MirConst::Bool(true)));
    lower_break(&mut b);
    assert!(matches!(&b.blocks[2].terminator, Terminator::Goto(BlockId(3))));
    assert_eq!(b.current_block, BlockId(4));
    lower_continue(&mut b);
    assert!(matches!(&b.blocks[4].terminator, Terminator::Goto(BlockId(1))));
    assert_eq!(b.current_block, BlockId(5));
    lower_return(&mut b, Some(Operand::Copy(LocalId(0))));
    assert!(matches!(&b.blocks[5].terminator, Terminator::Return(Some(Operand::Copy(LocalId(0))))));
    assert_eq!(b.blocks.len(), 7);
    assert!(matches!(&b.blocks[6].terminator, Terminator::Unreachable));
}

#[test]
fn a_variable_declaration_stores_its_initial_value_and_binds_its_name() {
    let mut b = builder();
    let x = lower_var_decl(&mut b, "x".to_string(), int32(), Some(Operand::Const(MirConst::Int(3, PrimitiveType::Int32))));
    let y = lower_var_decl(&mut b, "y".to_string(), int32(), None);
    assert_eq!((x, y), (LocalId(0), LocalId(1)));
    assert_eq!(b.blocks[0].stmts.len(), 1);
    assert!(matches!(
        &b.blocks[0].stmts[0],
        Stmt::Assign(LocalId(0), AssignValue::Use(Operand::Const(MirConst::Int(3, PrimitiveType::Int32))))
    ));
    assert_eq!(b.lookup("x"), Some(LocalId(0)));
    assert_eq!(b.lookup("y"), Some(LocalId(1)));
}

#[test]
fn an_if_stores_the_value_of_each_open_arm_and_joins() {
    let mut b = builder();
    let shape = open_if(&mut b, Operand::Copy(LocalId(7)), int32());
    assert_eq!(shape.result, LocalId(0));
    assert!(matches!(
        &b.blocks[0].terminator,
        Terminator::CondBr(Operand::Copy(LocalId(7)), BlockId(1), BlockId(2))
    ));
    close_if_arm(&mut b, &shape, Some(Operand::Const(MirConst::Int(1, PrimitiveType::Int32))), shape.else_block);
    assert!(matches!(&b.blocks[1].terminator, Terminator::Goto(BlockId(3))));
    assert!(matches!(&b.blocks[1].stmts[0], Stmt::Assign(LocalId(0), AssignValue::Use(_))));
    // The else arm returns early; what follows the return lands in a block
    // that nothing jumps to, and that block is the one that joins.
    lower_return(&mut b, None);
    close_if_arm(&mut b, &shape, Some(Operand::Const(MirConst::Int(2, PrimitiveType::Int32))), shape.join);
    assert!(matches!(&b.blocks[2].terminator, Terminator::Return(None)));
    assert!(b.blocks[2].stmts.is_empty());
    assert_eq!(b.blocks[4].stmts.len(), 1);
    assert!(matches!(&b.blocks[4].terminator, Terminator::Goto(BlockId(3))));
    assert_eq!(b.current_block, BlockId(3));

    // An arm whose block already ended stores nothing.
    let mut b = builder();
    let shape = open_if(&mut b, Operand::Copy(LocalId(7)), int32());
    b.terminate(Terminator::Return(None));
    close_if_arm(&mut b, &shape, Some(Operand::Const(MirConst::Int(1, PrimitiveType::Int32))), shape.else_block);
    assert!(b.blocks[1].stmts.is_empty());
    assert!(matches!(&b.blocks[1].terminator, Terminator::Return(None)));
    assert_eq!(b.current_block, BlockId(2));
}
