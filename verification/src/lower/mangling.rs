use vstd::prelude::*;

use crate::hir::{
    lemma_models, model, models, FnId, Hir, HirFunction, HirInterface, HirModule, HirStruct, PrimitiveType,
    ResolvedType, TypeModel,
};
use crate::text::append_str;

verus! {

// ---------------------------------------------------------------------------
// Lookups by id
// ---------------------------------------------------------------------------

/// Index of the first struct with id `id` at or after index `from`.
pub open spec fn struct_at(s: Seq<HirStruct>, id: u32, from: int) -> Option<int>
    decreases s.len() - from,
{
    if from < 0 || from >= s.len() {
        None
    } else if s[from].id.0 == id {
        Some(from)
    } else {
        struct_at(s, id, from + 1)
    }
}

/// Index of the first interface with id `id` at or after index `from`.
pub open spec fn interface_at(s: Seq<HirInterface>, id: u32, from: int) -> Option<int>
    decreases s.len() - from,
{
    if from < 0 || from >= s.len() {
        None
    } else if s[from].id.0 == id {
        Some(from)
    } else {
        interface_at(s, id, from + 1)
    }
}

/// Index of the first module with id `id` at or after index `from`.
pub open spec fn module_at(s: Seq<HirModule>, id: u32, from: int) -> Option<int>
    decreases s.len() - from,
{
    if from < 0 || from >= s.len() {
        None
    } else if s[from].id.0 == id {
        Some(from)
    } else {
        module_at(s, id, from + 1)
    }
}

/// Index of the first function with id `id` at or after index `from`.
pub open spec fn function_at(s: Seq<HirFunction>, id: u32, from: int) -> Option<int>
    decreases s.len() - from,
{
    if from < 0 || from >= s.len() {
        None
    } else if s[from].id.0 == id {
        Some(from)
    } else {
        function_at(s, id, from + 1)
    }
}

proof fn lemma_struct_at(s: Seq<HirStruct>, id: u32, from: int)
    requires
        0 <= from,
    ensures
        struct_at(s, id, from) matches Some(i) ==> from <= i < s.len() && s[i].id.0 == id,
    decreases s.len() - from,
{
    if from < s.len() && s[from].id.0 != id {
        lemma_struct_at(s, id, from + 1);
    }
}

proof fn lemma_interface_at(s: Seq<HirInterface>, id: u32, from: int)
    requires
        0 <= from,
    ensures
        interface_at(s, id, from) matches Some(i) ==> from <= i < s.len() && s[i].id.0 == id,
    decreases s.len() - from,
{
    if from < s.len() && s[from].id.0 != id {
        lemma_interface_at(s, id, from + 1);
    }
}

proof fn lemma_module_at(s: Seq<HirModule>, id: u32, from: int)
    requires
        0 <= from,
    ensures
        module_at(s, id, from) matches Some(i) ==> from <= i < s.len() && s[i].id.0 == id,
    decreases s.len() - from,
{
    if from < s.len() && s[from].id.0 != id {
        lemma_module_at(s, id, from + 1);
    }
}

proof fn lemma_function_at(s: Seq<HirFunction>, id: u32, from: int)
    requires
        0 <= from,
    ensures
        function_at(s, id, from) matches Some(i) ==> from <= i < s.len() && s[i].id.0 == id,
    decreases s.len() - from,
{
    if from < s.len() && s[from].id.0 != id {
        lemma_function_at(s, id, from + 1);
    }
}

fn find_struct(s: &Vec<HirStruct>, id: u32) -> (r: Option<usize>)
    ensures
        r matches Some(i) ==> struct_at(s@, id, 0) == Some(i as int),
        r is None ==> struct_at(s@, id, 0) is None,
{
    let mut i: usize = 0;
    while i < s.len()
        invariant
            i <= s@.len(),
            struct_at(s@, id, 0) == struct_at(s@, id, i as int),
        decreases s@.len() - i,
    {
        if s[i].id.0 == id {
            return Some(i);
        }
        i = i + 1;
    }
    None
}

fn find_interface(s: &Vec<HirInterface>, id: u32) -> (r: Option<usize>)
    ensures
        r matches Some(i) ==> interface_at(s@, id, 0) == Some(i as int),
        r is None ==> interface_at(s@, id, 0) is None,
{
    let mut i: usize = 0;
    while i < s.len()
        invariant
            i <= s@.len(),
            interface_at(s@, id, 0) == interface_at(s@, id, i as int),
        decreases s@.len() - i,
    {
        if s[i].id.0 == id {
            return Some(i);
        }
        i = i + 1;
    }
    None
}

fn find_module(s: &Vec<HirModule>, id: u32) -> (r: Option<usize>)
    ensures
        r matches Some(i) ==> module_at(s@, id, 0) == Some(i as int),
        r is None ==> module_at(s@, id, 0) is None,
{
    let mut i: usize = 0;
    while i < s.len()
        invariant
            i <= s@.len(),
            module_at(s@, id, 0) == module_at(s@, id, i as int),
        decreases s@.len() - i,
    {
        if s[i].id.0 == id {
            return Some(i);
        }
        i = i + 1;
    }
    None
}

fn find_function(s: &Vec<HirFunction>, id: u32) -> (r: Option<usize>)
    ensures
        r matches Some(i) ==> function_at(s@, id, 0) == Some(i as int),
        r is None ==> function_at(s@, id, 0) is None,
{
    let mut i: usize = 0;
    while i < s.len()
        invariant
            i <= s@.len(),
            function_at(s@, id, 0) == function_at(s@, id, i as int),
        decreases s@.len() - i,
    {
        if s[i].id.0 == id {
            return Some(i);
        }
        i = i + 1;
    }
    None
}

// ---------------------------------------------------------------------------
// Symbol names
// ---------------------------------------------------------------------------

/// The name of the module with id `id`, which must exist.
pub open spec fn module_name(hir: Hir, id: u32) -> Seq<char> {
    hir.modules@[module_at(hir.modules@, id, 0).unwrap()].name@
}

/// The struct with id `id` and its module both exist.
pub open spec fn struct_known(hir: Hir, id: u32) -> bool {
    struct_at(hir.structs@, id, 0) matches Some(i) && module_at(hir.modules@, hir.structs@[i].module.0, 0)
        is Some
}

/// The interface with id `id` and its module both exist.
pub open spec fn interface_known(hir: Hir, id: u32) -> bool {
    interface_at(hir.interfaces@, id, 0) matches Some(i) && module_at(
        hir.modules@,
        hir.interfaces@[i].module.0,
        0,
    ) is Some
}

/// `module::Struct` for the struct with id `id`.
pub open spec fn struct_path(hir: Hir, id: u32) -> Seq<char> {
    let s = hir.structs@[struct_at(hir.structs@, id, 0).unwrap()];
    module_name(hir, s.module.0) + "::"@ + s.name@
}

/// `module::Interface` for the interface with id `id`.
pub open spec fn interface_path(hir: Hir, id: u32) -> Seq<char> {
    let i = hir.interfaces@[interface_at(hir.interfaces@, id, 0).unwrap()];
    module_name(hir, i.module.0) + "::"@ + i.name@
}

/// A primitive's variant name.
pub open spec fn primitive_variant(p: PrimitiveType) -> Seq<char> {
    match p {
        PrimitiveType::Int8 => "Int8"@,
        PrimitiveType::Int16 => "Int16"@,
        PrimitiveType::Int32 => "Int32"@,
        PrimitiveType::Int64 => "Int64"@,
        PrimitiveType::Uint8 => "Uint8"@,
        PrimitiveType::Uint16 => "Uint16"@,
        PrimitiveType::Uint32 => "Uint32"@,
        PrimitiveType::Uint64 => "Uint64"@,
        PrimitiveType::Float32 => "Float32"@,
        PrimitiveType::Float64 => "Float64"@,
        PrimitiveType::Bool => "Bool"@,
        PrimitiveType::String => "String"@,
        PrimitiveType::Char => "Char"@,
    }
}

/// Every struct and interface in `t` is known, and `t` holds no type
/// parameter.
pub open spec fn nameable(hir: Hir, t: TypeModel) -> bool
    decreases t,
{
    match t {
        TypeModel::Struct(id, args) => struct_known(hir, id) && all_nameable(hir, args),
        TypeModel::Interface(id, args) => interface_known(hir, id) && all_nameable(hir, args),
        TypeModel::Union(parts) => all_nameable(hir, parts),
        TypeModel::Function(params, ret) => all_nameable(hir, params) && nameable(hir, *ret),
        TypeModel::TypeParam(_) => false,
        _ => true,
    }
}

pub open spec fn all_nameable(hir: Hir, s: Seq<TypeModel>) -> bool
    decreases s,
{
    if s.len() == 0 {
        true
    } else {
        all_nameable(hir, s.drop_last()) && nameable(hir, s.last())
    }
}

/// The symbol name of a type: structs and interfaces by module path with
/// their type arguments in angle brackets, unions as `Union<a|b>`,
/// functions as `Function<params, ret>`, primitives by variant name.
pub open spec fn type_symbol(hir: Hir, t: TypeModel) -> Seq<char>
    decreases t,
{
    match t {
        TypeModel::Struct(id, args) => struct_path(hir, id) + if args.len() == 0 {
            Seq::empty()
        } else {
            "<"@ + symbols_joined(hir, args, ","@) + ">"@
        },
        TypeModel::Interface(id, args) => interface_path(hir, id) + if args.len() == 0 {
            Seq::empty()
        } else {
            "<"@ + symbols_joined(hir, args, ","@) + ">"@
        },
        TypeModel::Union(parts) => "Union<"@ + symbols_joined(hir, parts, "|"@) + ">"@,
        TypeModel::Primitive(p) => primitive_variant(p),
        TypeModel::Null => "Null"@,
        TypeModel::Function(params, ret) => "Function<"@ + symbols_joined(hir, params, ","@) + ", "@
            + type_symbol(hir, *ret) + ">"@,
        TypeModel::TypeParam(_) => Seq::empty(),
    }
}

/// The symbol names of the types in `s`, joined by `sep`.
pub open spec fn symbols_joined(hir: Hir, s: Seq<TypeModel>, sep: Seq<char>) -> Seq<char>
    decreases s,
{
    if s.len() == 0 {
        Seq::empty()
    } else if s.len() == 1 {
        type_symbol(hir, s[0])
    } else {
        symbols_joined(hir, s.drop_last(), sep) + sep + type_symbol(hir, s.last())
    }
}

/// The type arguments of a symbol: nothing, or `<a,b>`.
pub open spec fn args_symbol(hir: Hir, args: Seq<TypeModel>) -> Seq<char> {
    if args.len() == 0 {
        Seq::empty()
    } else {
        "<"@ + symbols_joined(hir, args, ","@) + ">"@
    }
}

proof fn lemma_all_nameable(hir: Hir, s: Seq<TypeModel>)
    ensures
        all_nameable(hir, s) <==> forall|i: int| 0 <= i < s.len() ==> nameable(hir, #[trigger] s[i]),
    decreases s.len(),
{
    if s.len() > 0 {
        lemma_all_nameable(hir, s.drop_last());
        if all_nameable(hir, s) {
            assert forall|i: int| 0 <= i < s.len() implies nameable(hir, #[trigger] s[i]) by {
                if i < s.len() - 1 {
                    assert(s[i] == s.drop_last()[i]);
                }
            }
        }
        if forall|i: int| 0 <= i < s.len() ==> nameable(hir, #[trigger] s[i]) {
            assert forall|i: int| 0 <= i < s.drop_last().len() implies nameable(
                hir,
                #[trigger] s.drop_last()[i],
            ) by {
                assert(s.drop_last()[i] == s[i]);
            }
            assert(nameable(hir, s[s.len() - 1]));
        }
    }
}

fn primitive_variant_text(p: &PrimitiveType) -> (r: &'static str)
    ensures
        r@ == primitive_variant(*p),
{
    match p {
        PrimitiveType::Int8 => "Int8",
        PrimitiveType::Int16 => "Int16",
        PrimitiveType::Int32 => "Int32",
        PrimitiveType::Int64 => "Int64",
        PrimitiveType::Uint8 => "Uint8",
        PrimitiveType::Uint16 => "Uint16",
        PrimitiveType::Uint32 => "Uint32",
        PrimitiveType::Uint64 => "Uint64",
        PrimitiveType::Float32 => "Float32",
        PrimitiveType::Float64 => "Float64",
        PrimitiveType::Bool => "Bool",
        PrimitiveType::String => "String",
        PrimitiveType::Char => "Char",
    }
}

/// The symbol names of the types, joined by `sep`.
fn join_symbols(hir: &Hir, v: &Vec<ResolvedType>, sep: &str) -> (r: String)
    requires
        all_nameable(*hir, models(v@)),
    ensures
        r@ == symbols_joined(*hir, models(v@), sep@),
    decreases v, 0nat,
{
    proof {
        lemma_models(v@);
        lemma_all_nameable(*hir, models(v@));
    }
    let mut out = String::new();
    let mut i: usize = 0;
    while i < v.len()
        invariant
            i <= v@.len(),
            models(v@).len() == v@.len(),
            forall|k: int| 0 <= k < v@.len() ==> #[trigger] models(v@)[k] == model(v@[k]),
            forall|k: int| 0 <= k < v@.len() ==> nameable(*hir, #[trigger] models(v@)[k]),
            out@ == symbols_joined(*hir, models(v@).subrange(0, i as int), sep@),
        decreases v@.len() - i,
    {
        proof {
            assert(decreases_to!(v => v@[i as int]));
            assert(nameable(*hir, models(v@)[i as int]));
        }
        if i > 0 {
            append_str(&mut out, sep);
        }
        let t = name_type(hir, &v[i], &[]);
        append_str(&mut out, t.as_str());
        proof {
            let s = models(v@).subrange(0, i + 1);
            assert(s.drop_last() =~= models(v@).subrange(0, i as int));
            assert(s.last() == model(v@[i as int]));
            if i == 0 {
                assert(s[0] == model(v@[0]));
                assert(out@ =~= type_symbol(*hir, model(v@[0])));
            }
        }
        i = i + 1;
    }
    proof {
        assert(models(v@).subrange(0, i as int) =~= models(v@));
    }
    out
}

/// The type arguments of a symbol: nothing, or `<a,b>`.
fn format_type_args(hir: &Hir, args: &Vec<ResolvedType>) -> (r: String)
    requires
        all_nameable(*hir, models(args@)),
    ensures
        r@ == args_symbol(*hir, models(args@)),
    decreases args, 1nat,
{
    proof {
        lemma_models(args@);
    }
    let mut out = String::new();
    if args.len() > 0 {
        append_str(&mut out, "<");
        let names = join_symbols(hir, args, ",");
        append_str(&mut out, names.as_str());
        append_str(&mut out, ">");
    }
    assert(out@ =~= args_symbol(*hir, models(args@)));
    out
}

/// The name of the module with id `id`.
fn module_name_of(hir: &Hir, id: u32) -> (r: String)
    requires
        module_at(hir.modules@, id, 0) is Some,
    ensures
        r@ == module_name(*hir, id),
{
    proof {
        lemma_module_at(hir.modules@, id, 0);
    }
    match find_module(&hir.modules, id) {
        Some(i) => hir.modules[i].name.clone(),
        None => String::new(),
    }
}

/// `module::Struct<args>` for a struct whose module exists.
pub fn name_struct(hir: &Hir, s: &HirStruct, args: &Vec<ResolvedType>) -> (r: String)
    requires
        module_at(hir.modules@, s.module.0, 0) is Some,
        all_nameable(*hir, models(args@)),
    ensures
        r@ == module_name(*hir, s.module.0) + "::"@ + s.name@ + args_symbol(*hir, models(args@)),
    decreases args, 2nat,
{
    let mut out = module_name_of(hir, s.module.0);
    append_str(&mut out, "::");
    append_str(&mut out, s.name.as_str());
    let a = format_type_args(hir, args);
    append_str(&mut out, a.as_str());
    out
}

/// The symbol of a function: `module::name<args>`, with the owning struct
/// between module and name for a method.
pub open spec fn function_symbol(hir: Hir, id: u32, args: Seq<TypeModel>) -> Seq<char> {
    let f = hir.functions@[function_at(hir.functions@, id, 0).unwrap()];
    match f.owner {
        Some(o) => module_name(hir, f.module.0) + "::"@ + hir.structs@[struct_at(hir.structs@, o.0, 0).unwrap()].name@
            + "::"@ + f.name@ + args_symbol(hir, args),
        None => module_name(hir, f.module.0) + "::"@ + f.name@ + args_symbol(hir, args),
    }
}

/// The function exists, with its module, and so does its owner struct.
pub open spec fn function_known(hir: Hir, id: u32) -> bool {
    function_at(hir.functions@, id, 0) matches Some(i) && {
        let f = hir.functions@[i];
        &&& module_at(hir.modules@, f.module.0, 0) is Some
        &&& f.owner matches Some(o) ==> struct_at(hir.structs@, o.0, 0) is Some
    }
}

/// The link-time symbol of a function instance; a method carries its
/// owner's name so that same-named methods of two structs stay apart.
pub fn name_function(hir: &Hir, fn_id: FnId, args: &Vec<ResolvedType>) -> (r: String)
    requires
        function_known(*hir, fn_id.0),
        all_nameable(*hir, models(args@)),
    ensures
        r@ == function_symbol(*hir, fn_id.0, models(args@)),
{
    proof {
        lemma_function_at(hir.functions@, fn_id.0, 0);
    }
    let fi = match find_function(&hir.functions, fn_id.0) {
        Some(i) => i,
        None => {
            proof {
                assert(false);
            }
            0
        },
    };
    let f = &hir.functions[fi];
    let mut out = module_name_of(hir, f.module.0);
    append_str(&mut out, "::");
    match f.owner {
        Some(owner_id) => {
            proof {
                lemma_struct_at(hir.structs@, owner_id.0, 0);
            }
            let si = match find_struct(&hir.structs, owner_id.0) {
                Some(i) => i,
                None => {
                    proof {
                        assert(false);
                    }
                    0
                },
            };
            append_str(&mut out, hir.structs[si].name.as_str());
            append_str(&mut out, "::");
        },
        None => {},
    }
    append_str(&mut out, f.name.as_str());
    let a = format_type_args(hir, args);
    append_str(&mut out, a.as_str());
    proof {
        assert(out@ =~= function_symbol(*hir, fn_id.0, models(args@)));
    }
    out
}

/// `module::Interface<args>` for an interface type.
pub fn name_interface(hir: &Hir, ty: &ResolvedType, args: &Vec<ResolvedType>) -> (r: String)
    requires
        ty@ matches TypeModel::Interface(id, _) && interface_known(*hir, id),
        all_nameable(*hir, models(args@)),
    ensures
        ty@ matches TypeModel::Interface(id, _) && r@ == interface_path(*hir, id) + args_symbol(
            *hir,
            models(args@),
        ),
    decreases args, 2nat,
{
    match ty {
        ResolvedType::Interface(hir_id, _) => {
            proof {
                lemma_interface_at(hir.interfaces@, hir_id.0, 0);
            }
            let ii = match find_interface(&hir.interfaces, hir_id.0) {
                Some(i) => i,
                None => {
                    proof {
                        assert(false);
                    }
                    0
                },
            };
            let i = &hir.interfaces[ii];
            let mut out = module_name_of(hir, i.module.0);
            append_str(&mut out, "::");
            append_str(&mut out, i.name.as_str());
            let a = format_type_args(hir, args);
            append_str(&mut out, a.as_str());
            out
        },
        _ => {
            proof {
                assert(false);
            }
            String::new()
        },
    }
}

/// The symbol name of a type.
pub fn name_type(hir: &Hir, ty: &ResolvedType, _args: &[ResolvedType]) -> (r: String)
    requires
        nameable(*hir, ty@),
    ensures
        r@ == type_symbol(*hir, ty@),
    decreases ty, 3nat,
{
    match ty {
        ResolvedType::Struct(hir_id, struct_args) => {
            proof {
                lemma_struct_at(hir.structs@, hir_id.0, 0);
                lemma_models(struct_args@);
            }
            let si = match find_struct(&hir.structs, hir_id.0) {
                Some(i) => i,
                None => {
                    proof {
                        assert(false);
                    }
                    0
                },
            };
            let r = name_struct(hir, &hir.structs[si], struct_args);
            proof {
                assert(r@ =~= type_symbol(*hir, ty@));
            }
            r
        },
        ResolvedType::Union(types) => {
            let mut out = String::new();
            append_str(&mut out, "Union<");
            let names = join_symbols(hir, types, "|");
            append_str(&mut out, names.as_str());
            append_str(&mut out, ">");
            proof {
                assert(out@ =~= type_symbol(*hir, ty@));
            }
            out
        },
        ResolvedType::Primitive(p) => {
            let mut out = String::new();
            append_str(&mut out, primitive_variant_text(p));
            proof {
                assert(out@ =~= type_symbol(*hir, ty@));
            }
            out
        },
        ResolvedType::Null => {
            let mut out = String::new();
            append_str(&mut out, "Null");
            proof {
                assert(out@ =~= type_symbol(*hir, ty@));
            }
            out
        },
        ResolvedType::Function(args, ret) => {
            let mut out = String::new();
            append_str(&mut out, "Function<");
            let names = join_symbols(hir, args, ",");
            append_str(&mut out, names.as_str());
            append_str(&mut out, ", ");
            let rn = name_type(hir, ret, &[]);
            append_str(&mut out, rn.as_str());
            append_str(&mut out, ">");
            proof {
                assert(out@ =~= type_symbol(*hir, ty@));
            }
            out
        },
        ResolvedType::Interface(_, iface_args) => {
            proof {
                lemma_models(iface_args@);
            }
            let r = name_interface(hir, ty, iface_args);
            proof {
                assert(r@ =~= type_symbol(*hir, ty@));
            }
            r
        },
        ResolvedType::TypeParam(_) => {
            proof {
                assert(false);
            }
            String::new()
        },
    }
}

pub proof fn lemma_reveal_primitive_names()
    ensures
        "Int8"@ =~= seq!['I', 'n', 't', '8'],
        "Int16"@ =~= seq!['I', 'n', 't', '1', '6'],
        "Int32"@ =~= seq!['I', 'n', 't', '3', '2'],
        "Int64"@ =~= seq!['I', 'n', 't', '6', '4'],
        "Uint8"@ =~= seq!['U', 'i', 'n', 't', '8'],
        "Uint16"@ =~= seq!['U', 'i', 'n', 't', '1', '6'],
        "Uint32"@ =~= seq!['U', 'i', 'n', 't', '3', '2'],
        "Uint64"@ =~= seq!['U', 'i', 'n', 't', '6', '4'],
        "Float32"@ =~= seq!['F', 'l', 'o', 'a', 't', '3', '2'],
        "Float64"@ =~= seq!['F', 'l', 'o', 'a', 't', '6', '4'],
        "Bool"@ =~= seq!['B', 'o', 'o', 'l'],
        "String"@ =~= seq!['S', 't', 'r', 'i', 'n', 'g'],
        "Char"@ =~= seq!['C', 'h', 'a', 'r'],
        "Null"@ =~= seq!['N', 'u', 'l', 'l'],
{
    reveal_strlit("Int8");
    reveal_strlit("Int16");
    reveal_strlit("Int32");
    reveal_strlit("Int64");
    reveal_strlit("Uint8");
    reveal_strlit("Uint16");
    reveal_strlit("Uint32");
    reveal_strlit("Uint64");
    reveal_strlit("Float32");
    reveal_strlit("Float64");
    reveal_strlit("Bool");
    reveal_strlit("String");
    reveal_strlit("Char");
    reveal_strlit("Null");
}

/// Different primitives get different symbols, and none is the symbol of
/// `null`: instances of a function for two different primitive types can
/// never share a symbol. Symbols of primitives are never empty and hold
/// no `,`, `<`, `>` or `|`, the characters that separate type arguments.
pub proof fn law_primitive_symbols_are_distinct(hir: Hir, p: PrimitiveType, q: PrimitiveType)
    ensures
        type_symbol(hir, TypeModel::Primitive(p)) == type_symbol(hir, TypeModel::Primitive(q)) ==> p == q,
        type_symbol(hir, TypeModel::Primitive(p)) != type_symbol(hir, TypeModel::Null),
        type_symbol(hir, TypeModel::Primitive(p)).len() > 0,
        forall|k: int|
            0 <= k < type_symbol(hir, TypeModel::Primitive(p)).len() ==> {
                let c = #[trigger] type_symbol(hir, TypeModel::Primitive(p))[k];
                c != ',' && c != '<' && c != '>' && c != '|'
            },
{
    lemma_reveal_primitive_names();
    let a = type_symbol(hir, TypeModel::Primitive(p));
    let b = type_symbol(hir, TypeModel::Primitive(q));
    if a == b && p != q {
        assert(a.len() == b.len());
        assert(a[a.len() - 1] == b[b.len() - 1]);
        assert(a[0] == b[0]);
        if a.len() > 2 {
            assert(a[a.len() - 2] == b[b.len() - 2]);
            assert(a[1] == b[1]);
        }
    }
}

/// The primitive types of a sequence of models, if all of them are.
pub open spec fn all_primitive(s: Seq<TypeModel>) -> bool {
    forall|i: int| 0 <= i < s.len() ==> (#[trigger] s[i]) is Primitive
}

proof fn lemma_joined_primitives_injective(hir: Hir, s1: Seq<TypeModel>, s2: Seq<TypeModel>)
    requires
        all_primitive(s1),
        all_primitive(s2),
        s1.len() == s2.len(),
        symbols_joined(hir, s1, ","@) == symbols_joined(hir, s2, ","@),
    ensures
        s1 == s2,
    decreases s1.len(),
{
    reveal_strlit(",");
    if s1.len() == 1 {
        law_primitive_symbols_are_distinct(hir, s1[0]->Primitive_0, s2[0]->Primitive_0);
        assert(s1 =~= s2);
    } else if s1.len() > 1 {
        let a1 = symbols_joined(hir, s1.drop_last(), ","@);
        let a2 = symbols_joined(hir, s2.drop_last(), ","@);
        let x1 = type_symbol(hir, s1.last());
        let x2 = type_symbol(hir, s2.last());
        let j = a1 + ","@ + x1;
        assert(j == a2 + ","@ + x2);
        law_primitive_symbols_are_distinct(hir, s1.last()->Primitive_0, s1.last()->Primitive_0);
        law_primitive_symbols_are_distinct(hir, s2.last()->Primitive_0, s2.last()->Primitive_0);
        let l = j.len();
        if x1.len() < x2.len() {
            let k = l - x1.len() - 1;
            assert(j[k] == ',');
            assert((a2 + ","@ + x2)[k] == x2[k - a2.len() - 1]);
            assert(false);
        }
        if x2.len() < x1.len() {
            let k = l - x2.len() - 1;
            assert((a2 + ","@ + x2)[k] == ',');
            assert(j[k] == x1[k - a1.len() - 1]);
            assert(false);
        }
        assert(x1 =~= j.subrange(l - x1.len(), l as int));
        assert(x2 =~= (a2 + ","@ + x2).subrange(l - x2.len(), l as int));
        assert(a1 =~= j.subrange(0, a1.len() as int));
        assert(a2 =~= (a2 + ","@ + x2).subrange(0, a2.len() as int));
        law_primitive_symbols_are_distinct(hir, s1.last()->Primitive_0, s2.last()->Primitive_0);
        assert forall|i: int| 0 <= i < s1.drop_last().len() implies (#[trigger] s1.drop_last()[i]) is Primitive by {
            assert(s1.drop_last()[i] == s1[i]);
        }
        assert forall|i: int| 0 <= i < s2.drop_last().len() implies (#[trigger] s2.drop_last()[i]) is Primitive by {
            assert(s2.drop_last()[i] == s2[i]);
        }
        lemma_joined_primitives_injective(hir, s1.drop_last(), s2.drop_last());
        assert(s1 =~= s2.drop_last().push(s2.last()));
    }
}

/// Two instances of one function for primitive type arguments (as many of
/// them) get the same symbol only when the arguments are the same: the
/// instances for `u32` and for `i32` never collide at link time.
pub proof fn law_instance_symbols_are_distinct(hir: Hir, id: u32, a1: Seq<TypeModel>, a2: Seq<TypeModel>)
    requires
        all_primitive(a1),
        all_primitive(a2),
        a1.len() == a2.len(),
        function_symbol(hir, id, a1) == function_symbol(hir, id, a2),
    ensures
        a1 == a2,
{
    reveal_strlit("<");
    reveal_strlit(">");
    if a1.len() > 0 {
        let pre = function_symbol(hir, id, Seq::<TypeModel>::empty());
        let j1 = symbols_joined(hir, a1, ","@);
        let j2 = symbols_joined(hir, a2, ","@);
        assert(args_symbol(hir, Seq::<TypeModel>::empty()) =~= Seq::<char>::empty());
        assert(function_symbol(hir, id, a1) =~= pre + ("<"@ + j1 + ">"@));
        assert(function_symbol(hir, id, a2) =~= pre + ("<"@ + j2 + ">"@));
        let f = function_symbol(hir, id, a1);
        assert(j1 =~= f.subrange(pre.len() + 1int, f.len() - 1int));
        assert(j2 =~= f.subrange(pre.len() + 1int, f.len() - 1int));
        lemma_joined_primitives_injective(hir, a1, a2);
    } else {
        assert(a1 =~= a2);
    }
}

} // verus!
