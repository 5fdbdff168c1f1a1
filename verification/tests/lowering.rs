use otter_fusion::hir::{
    FnId, Hir, HirCapture, HirFunction, HirModule, HirStruct, ModuleId, PrimitiveType, ResolvedType, TypeId, TypeParamId,
};
use otter_fusion::lower::mono::Lower;
use otter_fusion::lower::subst::Subst;
use otter_fusion::lower::MonoTask;
use otter_fusion::codegen::select::{bin_route, route_helper, BinInst, BinRoute, IntCond};
use otter_fusion::lower::builder::FnBuilder;
use otter_fusion::lower::closures::closure_env_operands;
use otter_fusion::lower::{lower_as, lower_variable};
use otter_fusion::lower::loops::{
    branch_while_loop, close_index_loop, close_while_loop, open_index_loop, open_while_loop,
};
use otter_fusion::mir::{Abi, AssignValue, BinOp, BlockId, LocalId, MirConst, MirFnId, MirType, Operand, Stmt, Terminator};

fn hmodule(id: u32, name: &str) -> HirModule {
    HirModule {
        id: ModuleId(id),
        name: name.to_string(),
        structs: vec![],
        interfaces: vec![],
        functions: vec![],
        imports: vec![],
    }
}

fn hfunc(id: u32, name: &str, owner: Option<TypeId>, type_params: Vec<TypeParamId>) -> HirFunction {
    HirFunction {
        id: FnId(id),
        module: ModuleId(1),
        name: name.to_string(),
        owner,
        has_self: false,
        type_params,
        params: vec![],
        return_type: ResolvedType::Null,
        body: None,
    }
}

fn hstruct(id: u32, module: u32, name: &str) -> HirStruct {
    HirStruct {
        id: TypeId(id),
        module: ModuleId(module),
        name: name.to_string(),
        is_extern: false,
        type_params: vec![],
        fields: vec![],
        methods: vec![],
        specialised_methods: vec![],
        implements: vec![],
    }
}

fn program() -> Hir {
    Hir {
        modules: vec![hmodule(0, "of:core"), hmodule(1, "main")],
        structs: vec![hstruct(0, 1, "Entry"), hstruct(1, 0, "Entry")],
        interfaces: vec![],
        functions: vec![
            hfunc(0, "main", Some(TypeId(0)), vec![]),
            hfunc(1, "main", None, vec![TypeParamId(0)]),
            hfunc(2, "id", None, vec![TypeParamId(1)]),
            hfunc(3, "main", None, vec![]),
        ],
        type_params: vec![],
    }
}

#[test]
fn the_entry_is_the_free_non_generic_main() {
    let l = Lower::new(program());
    assert_eq!(l.find_main(), Some(FnId(3)));
    assert_eq!(l.entry_struct, Some(TypeId(1)));
    assert_eq!(l.iterator_interface, None);
    assert_eq!(l.entry_mir_fn, None);
}

#[test]
fn each_instance_is_made_once_and_queued_in_order() {
    let mut l = Lower::new(program());
    let i32_t = || ResolvedType::Primitive(PrimitiveType::Int32);
    let bool_t = || ResolvedType::Primitive(PrimitiveType::Bool);
    assert_eq!(l.mono_fn(FnId(3), vec![]), MirFnId(0));
    assert_eq!(l.mono_fn(FnId(2), vec![i32_t()]), MirFnId(1));
    assert_eq!(l.mono_fn(FnId(3), vec![]), MirFnId(0));
    assert_eq!(l.mono_fn(FnId(2), vec![bool_t()]), MirFnId(2));
    assert_eq!(l.mono_fn(FnId(2), vec![i32_t()]), MirFnId(1));
    let mut order = vec![];
    while let Some(t) = l.pop_task() {
        match t {
            MonoTask::Function { fn_id, type_args, mir_id } => order.push((fn_id, type_args, mir_id)),
            MonoTask::VTable { .. } => panic!("no vtable was queued"),
        }
    }
    assert_eq!(
        order,
        vec![
            (FnId(3), vec![], MirFnId(0)),
            (FnId(2), vec![i32_t()], MirFnId(1)),
            (FnId(2), vec![bool_t()], MirFnId(2)),
        ]
    );
    assert!(l.pop_task().is_none());
    assert_eq!(l.mono_fn(FnId(2), vec![bool_t()]), MirFnId(2));
    assert!(l.pop_task().is_none());
}

#[test]
fn distinct_parameters_bind_by_position() {
    let s = Subst::new(vec![TypeParamId(0), TypeParamId(1)], vec![ResolvedType::Primitive(PrimitiveType::Int32)]);
    assert_eq!(s.apply(&ResolvedType::TypeParam(TypeParamId(0))), ResolvedType::Primitive(PrimitiveType::Int32));
    assert_eq!(s.apply(&ResolvedType::TypeParam(TypeParamId(1))), ResolvedType::TypeParam(TypeParamId(1)));
    let empty = Subst::new(vec![], vec![]);
    let t = ResolvedType::Struct(TypeId(4), vec![ResolvedType::TypeParam(TypeParamId(0))]);
    assert_eq!(empty.apply(&t), t);
}

#[test]
fn string_operations_route_through_runtime_helpers() {
    let s = PrimitiveType::String;
    assert_eq!(bin_route(&BinOp::Add, &s), Some(BinRoute::StrConcat));
    assert_eq!(route_helper(&BinRoute::StrConcat), Some("__of_str_concat"));
    assert_eq!(bin_route(&BinOp::Eq, &s), Some(BinRoute::StrEq));
    assert_eq!(bin_route(&BinOp::Neq, &s), Some(BinRoute::StrNeq));
    assert_eq!(route_helper(&BinRoute::StrNeq), Some("__of_str_eq"));
    assert_eq!(bin_route(&BinOp::Add, &PrimitiveType::Int32), Some(BinRoute::Inst(BinInst::Iadd)));
    assert_eq!(route_helper(&BinRoute::Inst(BinInst::Iadd)), None);
    assert_eq!(bin_route(&BinOp::Div, &PrimitiveType::Int8), Some(BinRoute::Inst(BinInst::Sdiv)));
    assert_eq!(
        bin_route(&BinOp::Lt, &PrimitiveType::Uint16),
        Some(BinRoute::Inst(BinInst::Icmp(IntCond::UnsignedLessThan)))
    );
    assert_eq!(bin_route(&BinOp::Mod, &PrimitiveType::Float64), None);
    assert_eq!(bin_route(&BinOp::And, &PrimitiveType::Float32), None);
}

#[test]
fn a_cast_is_emitted_to_the_substituted_target_primitive() {
    let mut b = FnBuilder::new(MirFnId(0), "f".to_string(), Abi::Otter, MirType::Primitive(PrimitiveType::Bool));
    let subst = Subst::new(vec![TypeParamId(5)], vec![ResolvedType::Primitive(PrimitiveType::Float64)]);
    let op = Operand::Const(MirConst::Int(1, PrimitiveType::Int32));
    let r = lower_as(
        op,
        &ResolvedType::Primitive(PrimitiveType::Int32),
        &ResolvedType::TypeParam(TypeParamId(5)),
        &subst,
        &mut b,
    );
    assert!(matches!(r, Operand::Copy(LocalId(0))));
    assert_eq!(b.locals.len(), 1);
    assert_eq!(b.locals[0].ty, MirType::Primitive(PrimitiveType::Float64));
    assert_eq!(b.blocks[0].stmts.len(), 1);
    assert!(matches!(
        &b.blocks[0].stmts[0],
        Stmt::Assign(LocalId(0), AssignValue::Cast(Operand::Const(MirConst::Int(1, PrimitiveType::Int32)), MirType::Primitive(PrimitiveType::Float64)))
    ));
}

fn owned(id: u32, name: &str) -> HirFunction {
    hfunc(id, name, Some(TypeId(0)), vec![])
}

#[test]
fn methods_resolve_inherent_first_then_universal_extends() {
    let mut s = hstruct(0, 1, "S");
    s.methods = vec![FnId(1)];
    s.specialised_methods = vec![
        (vec![ResolvedType::TypeParam(TypeParamId(9))], FnId(2)),
        (vec![ResolvedType::Primitive(PrimitiveType::Int32)], FnId(3)),
        (vec![ResolvedType::TypeParam(TypeParamId(9))], FnId(4)),
    ];
    let hir = Hir {
        modules: vec![hmodule(1, "main")],
        structs: vec![s],
        interfaces: vec![],
        functions: vec![
            hfunc(0, "helper", None, vec![]),
            owned(1, "get"),
            owned(2, "size"),
            owned(3, "len"),
            owned(4, "len"),
        ],
        type_params: vec![],
    };
    let l = Lower::new(hir);
    assert_eq!(l.resolve_method(TypeId(0), &"get".to_string()), FnId(1));
    assert_eq!(l.resolve_method(TypeId(0), &"size".to_string()), FnId(2));
    assert_eq!(l.resolve_method(TypeId(0), &"len".to_string()), FnId(4));
    assert_eq!(l.lookup_free_function(&"helper".to_string()), Some(FnId(0)));
    assert_eq!(l.lookup_free_function(&"get".to_string()), None);
}

#[test]
fn an_index_loop_tests_advances_and_exits() {
    let mut b = FnBuilder::new(MirFnId(0), "f".to_string(), Abi::Otter, MirType::Primitive(PrimitiveType::Bool));
    let n = b.new_temp(MirType::Primitive(PrimitiveType::Int64));
    let lp = open_index_loop(&mut b, n);
    assert_eq!((lp.head, lp.body, lp.cont, lp.exit), (BlockId(1), BlockId(2), BlockId(3), BlockId(4)));
    assert_eq!(lp.index, LocalId(1));
    assert_eq!(b.locals[1].name.as_deref(), Some("__i"));
    assert_eq!(b.current_block, lp.body);
    assert_eq!(b.loop_stack, vec![(lp.cont, lp.exit)]);
    assert!(matches!(b.blocks[0].terminator, Terminator::Goto(BlockId(1))));
    assert!(matches!(
        &b.blocks[0].stmts[0],
        Stmt::Assign(LocalId(1), AssignValue::Use(Operand::Const(MirConst::Int(0, PrimitiveType::Int64))))
    ));
    assert!(matches!(
        &b.blocks[1].stmts[0],
        Stmt::Assign(LocalId(2), AssignValue::Bin(BinOp::Ge, Operand::Copy(LocalId(1)), Operand::Copy(LocalId(0))))
    ));
    assert!(matches!(b.blocks[1].terminator, Terminator::CondBr(Operand::Copy(LocalId(2)), BlockId(4), BlockId(2))));
    close_index_loop(&mut b, &lp);
    assert!(b.loop_stack.is_empty());
    assert_eq!(b.current_block, lp.exit);
    assert!(matches!(b.blocks[2].terminator, Terminator::Goto(BlockId(3))));
    assert_eq!(b.blocks[3].stmts.len(), 2);
    assert!(matches!(
        &b.blocks[3].stmts[0],
        Stmt::Assign(LocalId(3), AssignValue::Bin(BinOp::Add, Operand::Copy(LocalId(1)), Operand::Const(MirConst::Int(1, PrimitiveType::Int64))))
    ));
    assert!(matches!(&b.blocks[3].stmts[1], Stmt::Assign(LocalId(1), AssignValue::Use(Operand::Copy(LocalId(3))))));
    assert!(matches!(b.blocks[3].terminator, Terminator::Goto(BlockId(1))));
    assert!(b.blocks[4].stmts.is_empty());
}

#[test]
fn a_while_loop_branches_from_its_header_and_returns_to_it() {
    let mut b = FnBuilder::new(MirFnId(0), "f".to_string(), Abi::Otter, MirType::Primitive(PrimitiveType::Bool));
    let flag = b.new_temp(MirType::Primitive(PrimitiveType::Bool));
    let lp = open_while_loop(&mut b);
    assert_eq!((lp.head, lp.body, lp.exit), (BlockId(1), BlockId(2), BlockId(3)));
    assert_eq!(b.current_block, lp.head);
    assert!(matches!(b.blocks[0].terminator, Terminator::Goto(BlockId(1))));
    branch_while_loop(&mut b, &lp, Operand::Copy(flag));
    assert!(matches!(b.blocks[1].terminator, Terminator::CondBr(Operand::Copy(LocalId(0)), BlockId(2), BlockId(3))));
    assert_eq!(b.current_block, lp.body);
    assert_eq!(b.loop_stack, vec![(lp.head, lp.exit)]);
    close_while_loop(&mut b, &lp);
    assert!(matches!(b.blocks[2].terminator, Terminator::Goto(BlockId(1))));
    assert_eq!(b.current_block, lp.exit);
    assert!(b.loop_stack.is_empty());
    assert!(matches!(b.blocks[3].terminator, Terminator::Unreachable));
}

#[test]
fn a_closure_environment_holds_its_captures_in_order() {
    let mut b = FnBuilder::new(MirFnId(0), "f".to_string(), Abi::Otter, MirType::Primitive(PrimitiveType::Bool));
    let a = b.new_local(Some("a".to_string()), MirType::Primitive(PrimitiveType::Int64));
    let c = b.new_local(Some("c".to_string()), MirType::Primitive(PrimitiveType::Bool));
    b.bind("a".to_string(), a);
    b.bind("c".to_string(), c);
    let caps = vec![
        HirCapture { name: "c".to_string(), ty: ResolvedType::Primitive(PrimitiveType::Bool) },
        HirCapture { name: "a".to_string(), ty: ResolvedType::Primitive(PrimitiveType::Int64) },
    ];
    let ops = closure_env_operands(&b, &caps);
    assert_eq!(ops.len(), 2);
    assert!(matches!(ops[0], Operand::Copy(LocalId(1))));
    assert!(matches!(ops[1], Operand::Copy(LocalId(0))));
}

#[test]
fn a_variable_lowers_to_a_copy_of_its_innermost_binding() {
    let mut b = FnBuilder::new(MirFnId(0), "f".to_string(), Abi::Otter, MirType::Primitive(PrimitiveType::Bool));
    let outer = b.new_local(Some("x".to_string()), MirType::Primitive(PrimitiveType::Int64));
    b.bind("x".to_string(), outer);
    b.push_scope();
    let inner = b.new_local(Some("x".to_string()), MirType::Primitive(PrimitiveType::Bool));
    b.bind("x".to_string(), inner);
    assert!(matches!(lower_variable("x", &b), Operand::Copy(LocalId(1))));
    b.pop_scope();
    assert!(matches!(lower_variable("x", &b), Operand::Copy(LocalId(0))));
}
