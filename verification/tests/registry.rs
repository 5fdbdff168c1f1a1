use otter_fusion::ast::{
    FunctionDecl, ImportDecl, ImportSymbol, ImportSymbols, InterfaceDecl, Item, ItemKind, Module, PrimitiveType, Program,
    Span, StructDecl, TypeAliasDecl, TypeExpr,
};
use otter_fusion::hir::{FnId, HirImport, HirImportSymbol, ModuleId, TypeId};
use otter_fusion::validator::{ScopeEntry, ValidationError, Validator};

fn module(name: &str, items: Vec<Item>) -> Module {
    Module { name: name.to_string(), program: Program { items } }
}

fn import(target: &str, symbols: ImportSymbols) -> Item {
    Item::dummy(ItemKind::Import(ImportDecl { module: target.to_string(), symbols }))
}

fn register(mods: &[Module]) -> Validator {
    let mut v = Validator::new(vec![]);
    v.register_modules_and_imports(mods);
    v
}

#[test]
fn registration_gives_modules_consecutive_ids() {
    let v = register(&[module("a", vec![]), module("b", vec![])]);
    assert!(v.errors().is_empty());
    let hir = v.hir();
    assert_eq!(hir.modules.len(), 2);
    assert_eq!(hir.modules[0].id, ModuleId(0));
    assert_eq!(hir.modules[0].name, "a");
    assert_eq!(hir.modules[1].id, ModuleId(1));
    assert_eq!(hir.modules[1].name, "b");
}

#[test]
fn registration_reports_duplicate_modules() {
    let v = register(&[module("a", vec![]), module("a", vec![])]);
    assert_eq!(v.errors().len(), 1);
    assert!(matches!(&v.errors()[0], ValidationError::DuplicateModule { name } if name == "a"));
    assert_eq!(v.hir().modules.len(), 1);
}

#[test]
fn registration_reports_self_and_unknown_imports() {
    let v = register(&[module("a", vec![import("a", ImportSymbols::Glob), import("zzz", ImportSymbols::Glob)])]);
    assert_eq!(v.errors().len(), 2);
    assert!(matches!(&v.errors()[0], ValidationError::SelfImport { module } if module == "a"));
    assert!(matches!(
        &v.errors()[1],
        ValidationError::UnknownImportModule { in_module, target } if in_module == "a" && target == "zzz"
    ));
}

#[test]
fn registration_records_glob_and_defers_named_imports() {
    let named = ImportSymbols::Named(vec![ImportSymbol { name: "Foo".to_string(), alias: None }]);
    let v = register(&[
        module("lib", vec![]),
        module("main", vec![import("lib", ImportSymbols::Glob), import("lib", named)]),
    ]);
    assert!(v.errors().is_empty());
    let hir = v.hir();
    assert_eq!(hir.modules[1].imports.len(), 1);
    assert!(matches!(hir.modules[1].imports[0], HirImport::Glob(ModuleId(0))));
    assert!(hir.modules[0].imports.is_empty());
    let pending = v.pending_named_imports();
    assert_eq!(pending.len(), 1);
    assert_eq!(pending[0].importer, ModuleId(1));
    assert_eq!(pending[0].source, ModuleId(0));
    assert_eq!(pending[0].module_index, 1);
    assert_eq!(pending[0].item_index, 1);
}

fn strukt(name: &str) -> Item {
    Item::dummy(ItemKind::Struct(StructDecl {
        name: name.to_string(),
        is_extern: false,
        generics: vec![],
        fields: vec![],
        methods: vec![],
        implements: vec![],
    }))
}

fn iface(name: &str) -> Item {
    Item::dummy(ItemKind::Interface(InterfaceDecl {
        name: name.to_string(),
        generics: vec![],
        implements: vec![],
        fields: vec![],
        methods: vec![],
    }))
}

fn func(name: &str) -> Item {
    Item::dummy(ItemKind::Function(FunctionDecl {
        name: name.to_string(),
        has_self_param: false,
        is_extern: false,
        generics: vec![],
        return_type: None,
        params: vec![],
        body: None,
        span: Span { line: 1, column: 1 },
    }))
}

fn alias(name: &str) -> Item {
    Item::dummy(ItemKind::TypeAlias(TypeAliasDecl {
        name: name.to_string(),
        generics: vec![],
        ty: TypeExpr::Primitive(PrimitiveType::Int64),
    }))
}

fn register_names(mods: &[Module]) -> Validator {
    let mut v = register(mods);
    v.register_type_names(mods);
    v
}

#[test]
fn names_get_skeletons_and_fresh_ids() {
    let mods = [module("m", vec![strukt("S"), iface("I"), func("f"), alias("A"), strukt("T")])];
    let v = register_names(&mods);
    assert!(v.errors().is_empty());
    let hir = v.hir();
    assert_eq!(hir.structs.len(), 2);
    assert_eq!(hir.structs[0].id, TypeId(0));
    assert_eq!(hir.structs[0].name, "S");
    assert_eq!(hir.structs[1].id, TypeId(2));
    assert_eq!(hir.interfaces[0].id, TypeId(1));
    assert_eq!(hir.functions[0].id, FnId(0));
    assert_eq!(hir.functions[0].name, "f");
    assert_eq!(hir.modules[0].structs, vec![TypeId(0), TypeId(2)]);
    assert_eq!(hir.modules[0].interfaces, vec![TypeId(1)]);
    assert_eq!(hir.modules[0].functions, vec![FnId(0)]);
}

#[test]
fn a_name_declared_twice_in_a_module_is_reported() {
    let mods = [module("m", vec![strukt("S"), func("S")]), module("n", vec![strukt("S")])];
    let v = register_names(&mods);
    assert_eq!(v.errors().len(), 1);
    assert!(matches!(
        &v.errors()[0],
        ValidationError::DuplicateName { module, name } if module == "m" && name == "S"
    ));
    assert_eq!(v.hir().structs.len(), 2);
    assert_eq!(v.hir().functions.len(), 0);
}

fn named_import(target: &str, symbols: &[(&str, Option<&str>)]) -> Item {
    let syms = symbols
        .iter()
        .map(|(n, a)| ImportSymbol { name: n.to_string(), alias: a.map(|s| s.to_string()) })
        .collect();
    import(target, ImportSymbols::Named(syms))
}

fn resolve_all(mods: &[Module]) -> Validator {
    let mut v = register_names(mods);
    v.resolve_named_imports(mods);
    v
}

#[test]
fn a_named_import_resolves_a_type() {
    let mods = [module("lib", vec![strukt("Foo")]), module("main", vec![named_import("lib", &[("Foo", None)])])];
    let v = resolve_all(&mods);
    assert!(v.errors().is_empty());
    assert!(v.pending_named_imports().is_empty());
    let imports = &v.hir().modules[1].imports;
    assert_eq!(imports.len(), 1);
    match &imports[0] {
        HirImport::Named(src, syms) => {
            assert_eq!(*src, ModuleId(0));
            assert_eq!(syms.len(), 1);
            assert!(matches!(&syms[0], HirImportSymbol::Type(TypeId(0), local) if local == "Foo"));
        }
        _ => panic!("expected a named import"),
    }
}

#[test]
fn a_named_import_takes_its_alias() {
    let mods = [module("lib", vec![func("foo")]), module("main", vec![named_import("lib", &[("foo", Some("bar"))])])];
    let v = resolve_all(&mods);
    assert!(v.errors().is_empty());
    match &v.hir().modules[1].imports[0] {
        HirImport::Named(_, syms) => {
            assert!(matches!(&syms[0], HirImportSymbol::Function(FnId(0), local) if local == "bar"))
        }
        _ => panic!("expected a named import"),
    }
}

#[test]
fn an_unknown_imported_symbol_is_reported() {
    let mods = [module("lib", vec![]), module("main", vec![named_import("lib", &[("Missing", None)])])];
    let v = resolve_all(&mods);
    assert_eq!(v.errors().len(), 1);
    assert!(matches!(
        &v.errors()[0],
        ValidationError::UnknownImportSymbol { in_module, from_module, symbol }
            if in_module == "main" && from_module == "lib" && symbol == "Missing"
    ));
    assert!(v.hir().modules[1].imports.is_empty());
}

#[test]
fn an_imported_type_alias_stays_an_alias() {
    let mods = [module("lib", vec![alias("MyInt")]), module("main", vec![named_import("lib", &[("MyInt", None)])])];
    let v = resolve_all(&mods);
    assert!(v.errors().is_empty());
    match &v.hir().modules[1].imports[0] {
        HirImport::Named(_, syms) => assert!(matches!(
            &syms[0],
            HirImportSymbol::Alias { source: ModuleId(0), original, local } if original == "MyInt" && local == "MyInt"
        )),
        _ => panic!("expected a named import"),
    }
}

#[test]
fn a_name_imported_twice_is_reported() {
    let mods = [
        module("lib", vec![strukt("Foo")]),
        module("main", vec![named_import("lib", &[("Foo", None)]), named_import("lib", &[("Foo", None)])]),
    ];
    let v = resolve_all(&mods);
    assert_eq!(v.errors().len(), 1);
    assert!(matches!(
        &v.errors()[0],
        ValidationError::DuplicateImport { in_module, local_name } if in_module == "main" && local_name == "Foo"
    ));
    assert_eq!(v.hir().modules[1].imports.len(), 1);
}

#[test]
fn a_local_declaration_keeps_its_name_over_an_import() {
    let mods = [
        module("lib", vec![strukt("Foo")]),
        module("main", vec![strukt("Foo"), named_import("lib", &[("Foo", None)])]),
    ];
    let v = resolve_all(&mods);
    assert!(v.errors().is_empty());
    match &v.hir().modules[1].imports[0] {
        HirImport::Named(_, syms) => assert!(matches!(&syms[0], HirImportSymbol::Type(TypeId(0), _))),
        _ => panic!("expected a named import"),
    }
}

#[test]
fn scope_lookup_reads_own_names_then_globs() {
    let mods = [
        module("lib", vec![strukt("Foo"), func("bar"), alias("Num")]),
        module("main", vec![import("lib", ImportSymbols::Glob), strukt("Own")]),
    ];
    let v = resolve_all(&mods);
    assert!(v.errors().is_empty());
    let main = ModuleId(1);
    assert!(matches!(v.lookup_in_scope(main, &"Own".to_string()), Some(ScopeEntry::Type(TypeId(1)))));
    assert!(matches!(v.lookup_in_scope(main, &"Foo".to_string()), Some(ScopeEntry::Type(TypeId(0)))));
    assert!(matches!(v.lookup_in_scope(main, &"bar".to_string()), Some(ScopeEntry::Function(FnId(0)))));
    assert!(matches!(
        v.lookup_in_scope(main, &"Num".to_string()),
        Some(ScopeEntry::Alias { source: ModuleId(0), name }) if name == "Num"
    ));
    assert!(v.lookup_in_scope(main, &"zzz".to_string()).is_none());
    assert!(v.lookup_in_scope(ModuleId(7), &"Foo".to_string()).is_none());
}

#[test]
fn type_and_function_ids_come_from_the_own_scope_only() {
    let mods = [
        module("lib", vec![strukt("Foo"), func("bar")]),
        module("main", vec![import("lib", ImportSymbols::Glob)]),
    ];
    let v = resolve_all(&mods);
    assert_eq!(v.find_type_id(ModuleId(0), &"Foo".to_string()), Some(TypeId(0)));
    assert_eq!(v.find_type_id(ModuleId(1), &"Foo".to_string()), None);
    assert_eq!(v.find_type_id(ModuleId(0), &"bar".to_string()), None);
    assert_eq!(v.find_fn_id(ModuleId(0), &"bar".to_string()), Some(FnId(0)));
    assert_eq!(v.find_fn_id(ModuleId(0), &"Foo".to_string()), None);
}

#[test]
fn an_imported_name_resolves_in_the_importer_unless_declared_there() {
    let mods = [
        module("lib", vec![strukt("Foo"), strukt("Bar")]),
        module("main", vec![strukt("Foo"), named_import("lib", &[("Foo", None), ("Bar", Some("B"))])]),
    ];
    let v = resolve_all(&mods);
    assert!(v.errors().is_empty());
    let main = ModuleId(1);
    assert_eq!(v.find_type_id(main, &"B".to_string()), Some(TypeId(1)));
    assert_eq!(v.find_type_id(main, &"Foo".to_string()), Some(TypeId(2)));
    assert!(v.find_type_id(main, &"Bar".to_string()).is_none());
}
