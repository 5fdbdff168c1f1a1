use otter_fusion::ast::{
    FunctionDecl, ImportDecl, ImportSymbol, ImportSymbols, InterfaceDecl, Item, ItemKind, Module, PrimitiveType, Program,
    Span, StructDecl, TypeAliasDecl, TypeExpr,
};
use otter_fusion::hir::{HirImport, HirImportSymbol};
use otter_fusion::validator::{ValidationError, Validator};

/// Runs the phases of validation that register modules, names and imports.
fn register_all(modules: Vec<Module>) -> Validator {
    let mut v = Validator::new(vec![]);
    v.register_modules_and_imports(&modules);
    v.register_type_names(&modules);
    v.resolve_named_imports(&modules);
    v
}

fn run_ok(modules: Vec<Module>) -> Validator {
    let v = register_all(modules);
    assert!(v.errors().is_empty(), "unexpected errors: {:?}", v.errors());
    v
}

fn run_err(modules: Vec<Module>) -> Vec<ValidationError> {
    let v = register_all(modules);
    assert!(!v.errors().is_empty());
    v.errors().clone()
}

fn err_any<F: Fn(&ValidationError) -> bool>(errs: &[ValidationError], pred: F) -> bool {
    errs.iter().any(pred)
}

fn module(name: &str, items: Vec<Item>) -> Module {
    Module { name: name.into(), program: Program { items } }
}

fn i64_t() -> TypeExpr {
    TypeExpr::Primitive(PrimitiveType::Int64)
}

fn empty_struct(name: &str) -> StructDecl {
    StructDecl {
        name: name.into(),
        is_extern: false,
        generics: vec![],
        fields: vec![],
        methods: vec![],
        implements: vec![],
    }
}

fn empty_iface(name: &str) -> InterfaceDecl {
    InterfaceDecl { name: name.into(), generics: vec![], fields: vec![], methods: vec![], implements: vec![] }
}

fn empty_fn(name: &str) -> FunctionDecl {
    FunctionDecl {
        name: name.into(),
        has_self_param: false,
        is_extern: false,
        generics: vec![],
        return_type: None,
        params: vec![],
        body: None,
        span: Span::default(),
    }
}

#[test]
fn p0_empty_module_list() {
    let v = run_ok(vec![]);
    let hir = v.hir();
    assert!(hir.modules.is_empty());
}

#[test]
fn p0_single_module_skeleton() {
    let v = run_ok(vec![module("m", vec![])]);
    let hir = v.hir();
    assert_eq!(hir.modules.len(), 1);
    let m = hir.modules.iter().next().unwrap();
    assert_eq!(m.name, "m");
    assert!(m.imports.is_empty());
}

#[test]
fn p0_duplicate_module_errors() {
    let errs = run_err(vec![module("m", vec![]), module("m", vec![])]);
    assert!(err_any(&errs, |e| matches!(e, ValidationError::DuplicateModule { .. })));
}

#[test]
fn p0_self_import_errors() {
    let imp = Item::dummy(ItemKind::Import(ImportDecl { module: "m".into(), symbols: ImportSymbols::Glob }));
    let errs = run_err(vec![module("m", vec![imp])]);
    assert!(err_any(&errs, |e| matches!(e, ValidationError::SelfImport { .. })));
}

#[test]
fn p0_unknown_import_module_errors() {
    let imp = Item::dummy(ItemKind::Import(ImportDecl { module: "missing".into(), symbols: ImportSymbols::Glob }));
    let errs = run_err(vec![module("m", vec![imp])]);
    assert!(err_any(&errs, |e| matches!(e, ValidationError::UnknownImportModule { .. })));
}

#[test]
fn p0_glob_import_recorded_in_hir() {
    let imp = Item::dummy(ItemKind::Import(ImportDecl { module: "lib".into(), symbols: ImportSymbols::Glob }));
    let v = run_ok(vec![module("lib", vec![]), module("main", vec![imp])]);
    let hir = v.hir();
    let main = hir.modules.iter().find(|m| m.name == "main").unwrap();
    assert!(matches!(main.imports.first(), Some(HirImport::Glob(_))));
}

#[test]
fn p1_struct_skeleton_inserted() {
    let v = run_ok(vec![module("m", vec![Item::dummy(ItemKind::Struct(empty_struct("Foo")))])]);
    let hir = v.hir();
    assert_eq!(hir.structs.len(), 1);
    let s = hir.structs.iter().next().unwrap();
    assert_eq!(s.name, "Foo");
    assert!(s.fields.is_empty());
}

#[test]
fn p1_interface_skeleton_inserted() {
    let v = run_ok(vec![module("m", vec![Item::dummy(ItemKind::Interface(empty_iface("Show")))])]);
    let hir = v.hir();
    assert_eq!(hir.interfaces.len(), 1);
}

#[test]
fn p1_function_skeleton_inserted() {
    let v = register_all(vec![module("m", vec![Item::dummy(ItemKind::Function(empty_fn("foo")))])]);
    assert!(v.errors().is_empty());
    assert_eq!(v.hir().functions.len(), 1);
}

#[test]
fn p1_duplicate_name_in_module_errors() {
    let errs = run_err(vec![module(
        "m",
        vec![Item::dummy(ItemKind::Struct(empty_struct("X"))), Item::dummy(ItemKind::Function(empty_fn("X")))],
    )]);
    assert!(err_any(&errs, |e| matches!(e, ValidationError::DuplicateName { .. })));
}

#[test]
fn p1_named_import_resolves_type() {
    let lib = module("lib", vec![Item::dummy(ItemKind::Struct(empty_struct("Foo")))]);
    let imp = Item::dummy(ItemKind::Import(ImportDecl {
        module: "lib".into(),
        symbols: ImportSymbols::Named(vec![ImportSymbol { name: "Foo".into(), alias: None }]),
    }));
    let v = run_ok(vec![lib, module("main", vec![imp])]);
    let hir = v.hir();
    let main = hir.modules.iter().find(|m| m.name == "main").unwrap();
    match main.imports.first() {
        Some(HirImport::Named(_, syms)) => {
            assert!(matches!(syms[0], HirImportSymbol::Type(_, _)));
        }
        _ => panic!("expected named import"),
    }
}

#[test]
fn p1_named_import_with_alias() {
    let lib = module("lib", vec![Item::dummy(ItemKind::Function(empty_fn("foo")))]);
    let imp = Item::dummy(ItemKind::Import(ImportDecl {
        module: "lib".into(),
        symbols: ImportSymbols::Named(vec![ImportSymbol { name: "foo".into(), alias: Some("bar".into()) }]),
    }));
    let v = run_ok(vec![lib, module("main", vec![imp])]);
    let hir = v.hir();
    let main = hir.modules.iter().find(|m| m.name == "main").unwrap();
    match main.imports.first() {
        Some(HirImport::Named(_, syms)) => match &syms[0] {
            HirImportSymbol::Function(_, local) => assert_eq!(local, "bar"),
            _ => panic!("expected function import"),
        },
        _ => panic!("expected named import"),
    }
}

#[test]
fn p1_unknown_imported_symbol_errors() {
    let lib = module("lib", vec![]);
    let imp = Item::dummy(ItemKind::Import(ImportDecl {
        module: "lib".into(),
        symbols: ImportSymbols::Named(vec![ImportSymbol { name: "Missing".into(), alias: None }]),
    }));
    let errs = run_err(vec![lib, module("main", vec![imp])]);
    assert!(err_any(&errs, |e| matches!(e, ValidationError::UnknownImportSymbol { .. })));
}

#[test]
fn p1_alias_import_classified_as_alias() {
    let alias = Item::dummy(ItemKind::TypeAlias(TypeAliasDecl { name: "MyInt".into(), generics: vec![], ty: i64_t() }));
    let imp = Item::dummy(ItemKind::Import(ImportDecl {
        module: "lib".into(),
        symbols: ImportSymbols::Named(vec![ImportSymbol { name: "MyInt".into(), alias: None }]),
    }));
    let v = run_ok(vec![module("lib", vec![alias]), module("main", vec![imp])]);
    let hir = v.hir();
    let main = hir.modules.iter().find(|m| m.name == "main").unwrap();
    match main.imports.first() {
        Some(HirImport::Named(_, syms)) => assert!(matches!(syms[0], HirImportSymbol::Alias { .. })),
        _ => panic!("expected named import"),
    }
}
