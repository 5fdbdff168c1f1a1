use otter_fusion::ast::{
    FieldDecl, FunctionDecl, GenericParam, ImportDecl, ImportSymbols, InterfaceDecl, Item, ItemKind, Module, ParamDecl, PrimitiveType,
    Program, Span,
    StructDecl, TypeAliasDecl, TypeExpr,
};
use otter_fusion::hir::{FnId, HirStruct, ModuleId, PrimitiveType as Prim, ResolvedType, TypeId, TypeParamId};
use otter_fusion::validator::{TypeResolveCtx, ValidationError, Validator};

fn module(name: &str, items: Vec<Item>) -> Module {
    Module { name: name.to_string(), program: Program { items } }
}

fn glob(target: &str) -> Item {
    Item::dummy(ItemKind::Import(ImportDecl { module: target.to_string(), symbols: ImportSymbols::Glob }))
}

fn strukt(name: &str) -> Item {
    Item::dummy(ItemKind::Struct(StructDecl {
        name: name.to_string(),
        is_extern: false,
        generics: vec![],
        fields: vec![],
        methods: vec![],
        implements: vec![],
    }))
}

fn func(name: &str) -> Item {
    Item::dummy(ItemKind::Function(FunctionDecl {
        name: name.to_string(),
        has_self_param: false,
        is_extern: false,
        generics: vec![],
        return_type: None,
        params: vec![],
        body: None,
        span: Span { line: 1, column: 1 },
    }))
}

fn alias(name: &str, generics: &[&str], ty: TypeExpr) -> Item {
    Item::dummy(ItemKind::TypeAlias(TypeAliasDecl {
        name: name.to_string(),
        generics: generics.iter().map(|g| GenericParam { name: g.to_string(), bounds: vec![] }).collect(),
        ty,
    }))
}

fn named(n: &str, args: Vec<TypeExpr>) -> TypeExpr {
    TypeExpr::Named(n.to_string(), args)
}

fn registered(mods: &[Module]) -> Validator {
    let mut v = Validator::new(vec![]);
    v.register_modules_and_imports(mods);
    v.register_type_names(mods);
    v.resolve_named_imports(mods);
    v
}

fn ctx_in(module: u32) -> TypeResolveCtx {
    TypeResolveCtx {
        module: ModuleId(module),
        generics: vec![],
        local_subst: vec![],
        allow_pointer: false,
    }
}

fn fixture() -> [Module; 2] {
    [
        module(
            "lib",
            vec![
                strukt("Foo"),
                func("bar"),
                alias("Num", &[], TypeExpr::Primitive(PrimitiveType::Int64)),
                alias("Id", &["T"], named("T", vec![])),
            ],
        ),
        module("main", vec![glob("lib")]),
    ]
}

#[test]
fn names_resolve_through_glob_imports() {
    let mods = fixture();
    let mut v = registered(&mods);
    assert!(v.errors().is_empty());
    let ctx = ctx_in(1);
    let r = v.resolve_type_expr(&mods, &named("Foo", vec![]), &ctx);
    assert_eq!(r, ResolvedType::Struct(TypeId(0), vec![]));
    let r = v.resolve_type_expr(&mods, &named("Num", vec![]), &ctx);
    assert_eq!(r, ResolvedType::Primitive(Prim::Int64));
    let r = v.resolve_type_expr(&mods, &named("Id", vec![TypeExpr::Primitive(PrimitiveType::Bool)]), &ctx);
    assert_eq!(r, ResolvedType::Primitive(Prim::Bool));
    assert!(v.errors().is_empty());
}

#[test]
fn compound_types_resolve_part_by_part() {
    let mods = fixture();
    let mut v = registered(&mods);
    let ctx = ctx_in(1);
    let f = TypeExpr::Function(vec![TypeExpr::Primitive(PrimitiveType::Int32)], Box::new(named("Foo", vec![])));
    let r = v.resolve_type_expr(&mods, &f, &ctx);
    assert_eq!(
        r,
        ResolvedType::Function(vec![ResolvedType::Primitive(Prim::Int32)], Box::new(ResolvedType::Struct(TypeId(0), vec![])))
    );
    let u = TypeExpr::Union(vec![TypeExpr::Primitive(PrimitiveType::Char), TypeExpr::Primitive(PrimitiveType::Null)]);
    let r = v.resolve_type_expr(&mods, &u, &ctx);
    assert_eq!(r, ResolvedType::Union(vec![ResolvedType::Primitive(Prim::Char), ResolvedType::Null]));
    assert!(v.errors().is_empty());
}

#[test]
fn unknown_names_and_function_names_are_reported() {
    let mods = fixture();
    let mut v = registered(&mods);
    let ctx = ctx_in(1);
    assert_eq!(v.resolve_type_expr(&mods, &named("Nope", vec![]), &ctx), ResolvedType::Null);
    assert_eq!(v.resolve_type_expr(&mods, &named("bar", vec![]), &ctx), ResolvedType::Null);
    assert_eq!(v.errors().len(), 2);
    assert!(matches!(&v.errors()[0], ValidationError::UnknownType { module, name } if module == "main" && name == "Nope"));
    assert!(matches!(
        &v.errors()[1],
        ValidationError::ExpectedTypeFoundFunction { module, name } if module == "main" && name == "bar"
    ));
}

#[test]
fn arity_is_checked_for_types_and_aliases() {
    let mods = fixture();
    let mut v = registered(&mods);
    let ctx = ctx_in(1);
    let i32_t = || TypeExpr::Primitive(PrimitiveType::Int32);
    assert_eq!(v.resolve_type_expr(&mods, &named("Foo", vec![i32_t()]), &ctx), ResolvedType::Null);
    assert_eq!(v.resolve_type_expr(&mods, &named("Id", vec![]), &ctx), ResolvedType::Null);
    assert_eq!(v.errors().len(), 2);
    assert!(matches!(
        &v.errors()[0],
        ValidationError::GenericArityMismatch { module, name, expected: 0, actual: 1 } if module == "main" && name == "Foo"
    ));
    assert!(matches!(
        &v.errors()[1],
        ValidationError::GenericArityMismatch { module, name, expected: 1, actual: 0 } if module == "main" && name == "Id"
    ));
}

#[test]
fn type_parameters_shadow_and_take_no_arguments() {
    let mods = fixture();
    let mut v = registered(&mods);
    let mut ctx = ctx_in(1);
    ctx.generics = vec![vec![("Foo".to_string(), TypeParamId(4))], vec![("T".to_string(), TypeParamId(7))]];
    assert_eq!(v.resolve_type_expr(&mods, &named("Foo", vec![]), &ctx), ResolvedType::TypeParam(TypeParamId(4)));
    assert_eq!(v.resolve_type_expr(&mods, &named("T", vec![]), &ctx), ResolvedType::TypeParam(TypeParamId(7)));
    assert!(v.errors().is_empty());
    let arg = TypeExpr::Primitive(PrimitiveType::Bool);
    assert_eq!(v.resolve_type_expr(&mods, &named("T", vec![arg]), &ctx), ResolvedType::Null);
    assert!(matches!(
        &v.errors()[0],
        ValidationError::GenericArgsOnTypeParam { module, name } if module == "main" && name == "T"
    ));
}

#[test]
fn pointers_are_allowed_only_where_the_context_allows_them() {
    let mods = fixture();
    let mut v = registered(&mods);
    let p = TypeExpr::Pointer(Box::new(TypeExpr::Primitive(PrimitiveType::Uint8)));
    let mut ctx = ctx_in(1);
    assert_eq!(v.resolve_type_expr(&mods, &p, &ctx), ResolvedType::Null);
    assert!(matches!(
        &v.errors()[0],
        ValidationError::PointerOutsideExtern { location } if location == "main (type expression)"
    ));
    ctx.allow_pointer = true;
    assert_eq!(v.resolve_type_expr(&mods, &p, &ctx), ResolvedType::Primitive(Prim::Uint8));
    assert_eq!(v.errors().len(), 1);
}

fn gp(name: &str) -> GenericParam {
    GenericParam { name: name.to_string(), bounds: vec![] }
}

#[test]
fn generic_parameters_get_fresh_ids_and_repeats_are_reported() {
    let mut v = Validator::new(vec![]);
    let scope = v.mint_generics(&[gp("T"), gp("U"), gp("T")], "m::Foo".to_string());
    assert_eq!(scope, vec![("T".to_string(), TypeParamId(0)), ("U".to_string(), TypeParamId(1))]);
    assert_eq!(v.errors().len(), 1);
    assert!(matches!(
        &v.errors()[0],
        ValidationError::DuplicateGenericParam { scope, name } if scope == "m::Foo" && name == "T"
    ));
    let more = v.mint_generics(&[gp("V")], "m::bar".to_string());
    assert_eq!(more, vec![("V".to_string(), TypeParamId(2))]);
    let tps = &v.hir().type_params;
    assert_eq!(tps.len(), 3);
    assert_eq!(tps[0].id, TypeParamId(0));
    assert_eq!(tps[0].name, "T");
    assert_eq!(tps[2].name, "V");
    assert!(tps.iter().all(|t| t.bounds.is_empty()));
}

fn iface(name: &str) -> Item {
    Item::dummy(ItemKind::Interface(InterfaceDecl {
        name: name.to_string(),
        generics: vec![],
        implements: vec![],
        fields: vec![],
        methods: vec![],
    }))
}

#[test]
fn implements_lists_keep_interfaces_and_report_other_types() {
    let mods = [module("lib", vec![strukt("Foo"), iface("Show")]), module("main", vec![glob("lib")])];
    let mut v = registered(&mods);
    let list = [named("Show", vec![]), named("Foo", vec![]), named("Nope", vec![])];
    let out = v.resolve_implements_list(&mods, ModuleId(1), &list, vec![], &"main::X".to_string());
    assert_eq!(out, vec![(TypeId(1), vec![])]);
    assert_eq!(v.errors().len(), 2);
    assert!(matches!(&v.errors()[0], ValidationError::ImplementsNotInterface { type_label } if type_label == "main::X"));
    assert!(matches!(&v.errors()[1], ValidationError::UnknownType { module, name } if module == "main" && name == "Nope"));
}

fn gp_bounded(name: &str, bounds: &[&str]) -> GenericParam {
    GenericParam { name: name.to_string(), bounds: bounds.iter().map(|b| named(b, vec![])).collect() }
}

#[test]
fn generic_bounds_record_their_interfaces() {
    let mods = [module("lib", vec![strukt("Foo"), iface("Show")]), module("main", vec![glob("lib")])];
    let mut v = registered(&mods);
    let params = [gp_bounded("T", &["Show"]), gp_bounded("U", &["Foo", "Show", "Nope"]), gp_bounded("V", &["T"])];
    let scope = v.mint_generics(&params, "main::X".to_string());
    assert_eq!(scope.len(), 3);
    v.resolve_generic_bounds(&mods, ModuleId(1), &params, scope, &"main::X".to_string());
    let tps = &v.hir().type_params;
    assert_eq!(tps[0].bounds, vec![TypeId(1)]);
    assert_eq!(tps[1].bounds, vec![TypeId(1)]);
    assert!(tps[2].bounds.is_empty());
    assert_eq!(v.errors().len(), 3);
    assert!(matches!(
        &v.errors()[0],
        ValidationError::BoundNotInterface { scope, type_param } if scope == "main::X" && type_param == "U"
    ));
    assert!(matches!(&v.errors()[1], ValidationError::UnknownType { name, .. } if name == "Nope"));
    assert!(matches!(
        &v.errors()[2],
        ValidationError::BoundNotInterface { type_param, .. } if type_param == "V"
    ));
}

fn param(name: &str, ty: TypeExpr, is_pointer: bool) -> ParamDecl {
    ParamDecl { name: name.to_string(), ty, is_pointer }
}

#[test]
fn a_signature_records_its_parameters_and_return_type() {
    let mods = [module("lib", vec![strukt("Foo"), func("f")])];
    let mut v = registered(&mods);
    let decl = FunctionDecl {
        name: "f".to_string(),
        has_self_param: false,
        is_extern: false,
        generics: vec![],
        return_type: Some(named("Nope", vec![])),
        params: vec![
            param("a", TypeExpr::Primitive(PrimitiveType::Int32), false),
            param("a", TypeExpr::Primitive(PrimitiveType::Bool), false),
            param("p", named("Foo", vec![]), true),
        ],
        body: None,
        span: Span { line: 1, column: 1 },
    };
    v.resolve_function_signature(&mods, FnId(0), &decl, ModuleId(0), vec![], &"lib::f".to_string());
    assert_eq!(v.errors().len(), 3);
    assert!(matches!(&v.errors()[0], ValidationError::DuplicateParam { function, param } if function == "lib::f" && param == "a"));
    assert!(matches!(&v.errors()[1], ValidationError::PointerOutsideExtern { location } if location == "lib::f(p)"));
    assert!(matches!(&v.errors()[2], ValidationError::UnknownType { module, name } if module == "lib" && name == "Nope"));
    let f = &v.hir().functions[0];
    assert_eq!(f.params.len(), 2);
    assert_eq!(f.params[0].name, "a");
    assert_eq!(f.params[0].ty, ResolvedType::Primitive(Prim::Int32));
    assert!(!f.params[0].is_pointer);
    assert_eq!(f.params[1].name, "p");
    assert_eq!(f.params[1].ty, ResolvedType::Struct(TypeId(0), vec![]));
    assert!(f.params[1].is_pointer);
    assert_eq!(f.return_type, ResolvedType::Null);
}

fn field(name: &str, ty: TypeExpr, is_pointer: bool) -> FieldDecl {
    FieldDecl { name: name.to_string(), ty, is_pointer }
}

#[test]
fn fields_resolve_in_order_and_repeats_are_reported() {
    let mods = [module("lib", vec![strukt("Foo")])];
    let mut v = registered(&mods);
    let fields = [
        field("x", TypeExpr::Primitive(PrimitiveType::Int64), false),
        field("x", TypeExpr::Primitive(PrimitiveType::Bool), false),
        field("p", named("Foo", vec![]), true),
    ];
    let out = v.resolve_fields(&mods, ModuleId(0), vec![], &fields, false, &"lib".to_string(), &"Bar".to_string());
    assert_eq!(v.errors().len(), 2);
    assert!(matches!(&v.errors()[0], ValidationError::DuplicateField { type_label, field } if type_label == "lib::Bar" && field == "x"));
    assert!(matches!(&v.errors()[1], ValidationError::PointerOutsideExtern { location } if location == "lib::Bar.p"));
    assert_eq!(out.len(), 2);
    assert_eq!(out[0].name, "x");
    assert_eq!(out[0].ty, ResolvedType::Primitive(Prim::Int64));
    assert_eq!(out[1].ty, ResolvedType::Struct(TypeId(0), vec![]));
    assert!(out[1].is_pointer);

    let mut w = registered(&mods);
    let out = w.resolve_fields(&mods, ModuleId(0), vec![], &fields[2..], true, &"lib".to_string(), &"Raw".to_string());
    assert!(w.errors().is_empty());
    assert_eq!(out.len(), 1);
}

#[test]
fn the_self_type_applies_a_type_to_its_own_parameters() {
    let mods = [module("lib", vec![strukt("Foo"), iface("Show")])];
    let v = registered(&mods);
    assert_eq!(v.self_type_for(TypeId(0)), ResolvedType::Struct(TypeId(0), vec![]));
    assert_eq!(v.self_type_for(TypeId(1)), ResolvedType::Interface(TypeId(1), vec![]));
    assert_eq!(v.self_type_for(TypeId(9)), ResolvedType::Null);
}

#[test]
fn required_interfaces_are_collected_once_each_from_the_stack_top() {
    let mods = [module("lib", vec![strukt("Foo"), iface("Show")])];
    let v = registered(&mods);
    let direct = vec![(TypeId(1), vec![]), (TypeId(1), vec![]), (TypeId(9), vec![ResolvedType::Primitive(Prim::Bool)])];
    let req = v.collect_required_interfaces(&direct);
    assert_eq!(req, vec![(TypeId(9), vec![ResolvedType::Primitive(Prim::Bool)]), (TypeId(1), vec![])]);
}

fn bare_struct(methods: Vec<FnId>, type_params: Vec<TypeParamId>, ext: Vec<(Vec<ResolvedType>, FnId)>) -> HirStruct {
    HirStruct {
        id: TypeId(0),
        module: ModuleId(0),
        name: "S".to_string(),
        is_extern: false,
        type_params,
        fields: vec![],
        methods,
        specialised_methods: ext,
        implements: vec![],
    }
}

#[test]
fn struct_methods_are_found_inline_first_then_in_universal_extends() {
    let mods = [module("lib", vec![func("get"), func("len")])];
    let v = registered(&mods);
    let tp = |i: u32| ResolvedType::TypeParam(TypeParamId(i));
    let s = bare_struct(vec![FnId(0)], vec![TypeParamId(0)], vec![(vec![tp(5)], FnId(1))]);
    let (f, m) = v.find_struct_method(&s, &"get".to_string()).unwrap();
    assert_eq!(f, FnId(0));
    assert_eq!(m.apply(&tp(5)), tp(5));
    let (f, m) = v.find_struct_method(&s, &"len".to_string()).unwrap();
    assert_eq!(f, FnId(1));
    assert_eq!(m.apply(&tp(5)), tp(0));
    assert!(v.find_struct_method(&s, &"nope".to_string()).is_none());
    let specialised = bare_struct(vec![], vec![TypeParamId(0)], vec![(vec![ResolvedType::Primitive(Prim::Int32)], FnId(1))]);
    assert!(v.find_struct_method(&specialised, &"len".to_string()).is_none());
}
