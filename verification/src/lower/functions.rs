use vstd::prelude::*;

use crate::hir::{lemma_models, model, models, Hir, HirFunction, ResolvedType, TypeModel, TypeParamId};
use crate::lower::builder::{is_fresh_block, scope_map, FnBuilder};
use crate::lower::casts::local;
use crate::lower::closures::{bind_run, param_mty, param_names};
use crate::hir::{HirStruct, TypeId};
use crate::lower::mangling::{all_nameable, args_symbol, module_at, module_name, name_struct};
use crate::lower::subst::subst_models;
use crate::lower::{compute_layout, field_sizes, fields_upto, fields_fit, spec_compute_layout};
use crate::mir::{
    Abi, BlockId, MirBlock, MirField, MirFnId, MirFunction, MirType, MirTypeDef, MirTypeId, Operand, StructKind,
    Terminator,
};
use crate::lower::mono::{all_params, all_type_params, struct_pos, struct_position};
use crate::lower::subst::{bound_upto, Subst};

verus! {

pub open spec fn min_len(a: int, b: int) -> int {
    if a < b {
        a
    } else {
        b
    }
}

/// The type parameters of the struct that owns `f`, if any.
pub open spec fn owner_params(hir: Hir, f: HirFunction) -> Seq<TypeParamId> {
    match f.owner {
        Some(o) => {
            let si = struct_pos(hir.structs@, o.0 as nat);
            if si >= 0 {
                hir.structs@[si].type_params@
            } else {
                seq![]
            }
        },
        None => seq![],
    }
}

/// The index of the first extend entry from `k` on that contributes
/// function `fid` for target arguments that are `arity` type parameters.
pub open spec fn alias_at(ext: Seq<(Vec<ResolvedType>, crate::hir::FnId)>, fid: u32, arity: int, k: int) -> Option<int>
    decreases ext.len() - k,
{
    if k < 0 || k >= ext.len() {
        None
    } else if ext[k].1.0 == fid && ext[k].0@.len() == arity && all_type_params(models(ext[k].0@)) {
        Some(k)
    } else {
        alias_at(ext, fid, arity, k + 1)
    }
}

/// The type parameters through which an extend block of the owner names
/// the owner's own parameters in `f`, where `f` comes from such a block
/// for all of the owner's parameters; otherwise none.
pub open spec fn alias_params(hir: Hir, f: HirFunction) -> Seq<TypeParamId> {
    match f.owner {
        Some(o) => {
            let si = struct_pos(hir.structs@, o.0 as nat);
            if si >= 0 {
                let st = hir.structs@[si];
                match alias_at(st.specialised_methods@, f.id.0, st.type_params@.len() as int, 0) {
                    Some(e) => models(st.specialised_methods@[e].0@).map_values(
                        |m: TypeModel| TypeParamId(m->TypeParam_0),
                    ),
                    None => seq![],
                }
            } else {
                seq![]
            }
        },
        None => seq![],
    }
}

/// The type arguments after the owner's.
pub open spec fn own_args(hir: Hir, f: HirFunction, args: Seq<TypeModel>) -> Seq<TypeModel> {
    let ar = owner_params(hir, f).len() as int;
    if ar <= args.len() {
        args.subrange(ar, args.len() as int)
    } else {
        seq![]
    }
}

/// The parameters bound when `f` is lowered for `args` (the owner's type
/// arguments first, then the method's own), in binding order: the owner's
/// parameters, their aliases in an extend block, then the method's own.
pub open spec fn fn_subst_params(hir: Hir, f: HirFunction, args: Seq<TypeModel>) -> Seq<TypeParamId> {
    let op = owner_params(hir, f);
    let al = alias_params(hir, f);
    let rest = own_args(hir, f, args);
    op.take(min_len(op.len() as int, args.len() as int)) + al.take(min_len(al.len() as int, args.len() as int))
        + f.type_params@.take(min_len(f.type_params@.len() as int, rest.len() as int))
}

/// The arguments they are bound to, at the same positions.
pub open spec fn fn_subst_args(hir: Hir, f: HirFunction, args: Seq<TypeModel>) -> Seq<TypeModel> {
    let op = owner_params(hir, f);
    let al = alias_params(hir, f);
    let rest = own_args(hir, f, args);
    args.take(min_len(op.len() as int, args.len() as int)) + args.take(min_len(al.len() as int, args.len() as int))
        + rest.take(min_len(f.type_params@.len() as int, rest.len() as int))
}

proof fn lemma_alias_at(ext: Seq<(Vec<ResolvedType>, crate::hir::FnId)>, fid: u32, arity: int, k: int)
    requires
        0 <= k,
    ensures
        alias_at(ext, fid, arity, k) matches Some(e) ==> k <= e < ext.len() && ext[e].1.0 == fid && ext[e].0@.len()
            == arity && all_type_params(models(ext[e].0@)),
    decreases ext.len() - k,
{
    if k < ext.len() {
        lemma_alias_at(ext, fid, arity, k + 1);
    }
}

/// The first extend entry that contributes function `fid` for target
/// arguments that are `arity` type parameters.
fn find_alias(ext: &Vec<(Vec<ResolvedType>, crate::hir::FnId)>, fid: u32, arity: usize) -> (r: Option<usize>)
    ensures
        match r {
            Some(e) => alias_at(ext@, fid, arity as int, 0) == Some(e as int) && e < ext@.len(),
            None => alias_at(ext@, fid, arity as int, 0) is None,
        },
{
    let mut e: usize = 0;
    while e < ext.len()
        invariant
            e <= ext@.len(),
            alias_at(ext@, fid, arity as int, 0) == alias_at(ext@, fid, arity as int, e as int),
        decreases ext@.len() - e,
    {
        let entry = &ext[e];
        if entry.1.0 == fid && entry.0.len() == arity && all_params(&entry.0) {
            return Some(e);
        }
        e = e + 1;
    }
    None
}

/// The substitution that a body of `f` is lowered under, for the type
/// arguments `type_args`: the owner's type parameters bound to the first
/// arguments; where `f` comes from an extend block over all of the owner's
/// parameters, the block's names for them bound to the same arguments; and
/// the method's own type parameters bound to the arguments after the
/// owner's. A later binding of a parameter wins. The owner of `f`, if
/// any, must be a struct of `hir`.
pub fn function_subst(hir: &Hir, f: &HirFunction, type_args: &Vec<ResolvedType>) -> (r: Subst)
    requires
        f.owner matches Some(o) ==> struct_pos(hir.structs@, o.0 as nat) >= 0,
    ensures
        forall|id: u32| #[trigger] r.binding(id) == bound_upto(
            fn_subst_params(*hir, *f, models(type_args@)),
            fn_subst_args(*hir, *f, models(type_args@)),
            fn_subst_params(*hir, *f, models(type_args@)).len() as int,
            id,
        ),
{
    let ghost args = models(type_args@);
    proof {
        lemma_models(type_args@);
    }
    let ghost op = owner_params(*hir, *f);
    let ghost al = alias_params(*hir, *f);
    let ghost rest = own_args(*hir, *f, args);
    let ghost n1 = min_len(op.len() as int, args.len() as int);
    let ghost n2 = min_len(al.len() as int, args.len() as int);
    let ghost n3 = min_len(f.type_params@.len() as int, rest.len() as int);
    let ghost big_p = fn_subst_params(*hir, *f, args);
    let ghost big_a = fn_subst_args(*hir, *f, args);
    let ghost a1 = args.take(n1);
    let ghost a2 = args.take(n2);
    let mut ps: Vec<TypeParamId> = Vec::new();
    let mut xs: Vec<ResolvedType> = Vec::new();
    let mut arity: usize = 0;
    let si = match f.owner {
        Some(o) => struct_position(&hir.structs, o),
        None => None,
    };
    if let Some(si) = si {
        let st = &hir.structs[si];
        arity = st.type_params.len();
        let mut k: usize = 0;
        while k < arity && k < type_args.len()
            invariant
                si < hir.structs@.len(),
                *st == hir.structs@[si as int],
                op == st.type_params@,
                arity == op.len(),
                args == models(type_args@),
                args.len() == type_args@.len(),
                forall|j: int| 0 <= j < type_args@.len() ==> #[trigger] args[j] == model(type_args@[j]),
                n1 == min_len(op.len() as int, args.len() as int),
                k <= n1,
                ps@ == op.take(k as int),
                xs@.len() == k,
                forall|j: int| 0 <= j < k ==> model(#[trigger] xs@[j]) == args[j],
            decreases arity - k,
        {
            ps.push(st.type_params[k]);
            xs.push(type_args[k].clone());
            proof {
                assert(ps@ =~= op.take(k + 1));
            }
            k = k + 1;
        }
        match find_alias(&st.specialised_methods, f.id.0, arity) {
            Some(e) => {
                let targs = &st.specialised_methods[e].0;
                let ghost tm = models(targs@);
                proof {
                    lemma_alias_at(st.specialised_methods@, f.id.0, arity as int, 0);
                    lemma_models(targs@);
                    assert(al == tm.map_values(|m: TypeModel| TypeParamId(m->TypeParam_0)));
                }
                let mut k: usize = 0;
                while k < targs.len() && k < type_args.len()
                    invariant
                        tm == models(targs@),
                        tm.len() == targs@.len(),
                        forall|j: int| 0 <= j < targs@.len() ==> #[trigger] tm[j] == model(targs@[j]),
                        all_type_params(tm),
                        al == tm.map_values(|m: TypeModel| TypeParamId(m->TypeParam_0)),
                        args == models(type_args@),
                        args.len() == type_args@.len(),
                        forall|j: int| 0 <= j < type_args@.len() ==> #[trigger] args[j] == model(type_args@[j]),
                        n2 == min_len(al.len() as int, args.len() as int),
                        0 <= n1 <= args.len(),
                        0 <= n2 <= args.len(),
                        k <= n2,
                        ps@ == op.take(n1) + al.take(k as int),
                        xs@.len() == n1 + k,
                        forall|j: int| 0 <= j < n1 ==> model(#[trigger] xs@[j]) == args[j],
                        forall|j: int| n1 <= j < n1 + k ==> model(#[trigger] xs@[j]) == args[j - n1],
                    decreases targs@.len() - k,
                {
                    assert(tm[k as int] is TypeParam);
                    match &targs[k] {
                        ResolvedType::TypeParam(id) => {
                            ps.push(*id);
                        },
                        _ => {
                            assert(false);
                        },
                    }
                    xs.push(type_args[k].clone());
                    proof {
                        assert(ps@ =~= op.take(n1) + al.take(k + 1));
                    }
                    k = k + 1;
                }
            },
            None => {
                proof {
                    assert(al =~= seq![]);
                }
            },
        }
    } else {
        proof {
            assert(op =~= seq![]);
            assert(al =~= seq![]);
        }
    }
    proof {
        assert(ps@ =~= op.take(n1) + al.take(n2));
        assert(arity == op.len());
    }
    let ghost mid = ps@;
    if arity <= type_args.len() {
        let avail = type_args.len() - arity;
        let mut k: usize = 0;
        proof {
            assert(rest =~= args.subrange(arity as int, args.len() as int));
        }
        while k < f.type_params.len() && k < avail
            invariant
                avail == type_args@.len() - arity,
                arity == op.len(),
                rest == args.subrange(arity as int, args.len() as int),
                args == models(type_args@),
                args.len() == type_args@.len(),
                forall|j: int| 0 <= j < type_args@.len() ==> #[trigger] args[j] == model(type_args@[j]),
                n3 == min_len(f.type_params@.len() as int, rest.len() as int),
                arity <= type_args@.len(),
                0 <= n1 <= args.len(),
                0 <= n2 <= args.len(),
                k <= n3,
                mid == op.take(n1) + al.take(n2),
                ps@ == mid + f.type_params@.take(k as int),
                xs@.len() == n1 + n2 + k,
                forall|j: int| 0 <= j < n1 ==> model(#[trigger] xs@[j]) == args[j],
                forall|j: int| n1 <= j < n1 + n2 ==> model(#[trigger] xs@[j]) == args[j - n1],
                forall|j: int| n1 + n2 <= j < n1 + n2 + k ==> model(#[trigger] xs@[j]) == rest[j - n1 - n2],
            decreases f.type_params@.len() - k,
        {
            ps.push(f.type_params[k]);
            let idx: usize = type_args.len() - avail + k;
            assert(idx == arity + k);
            xs.push(type_args[idx].clone());
            proof {
                assert(ps@ =~= mid + f.type_params@.take(k + 1));
            }
            k = k + 1;
        }
    } else {
        proof {
            assert(rest =~= seq![]);
            assert(f.type_params@.take(0) =~= seq![]);
            assert(ps@ =~= mid + f.type_params@.take(0));
        }
    }
    proof {
        assert(ps@ =~= big_p);
        lemma_models(xs@);
        assert(models(xs@) =~= big_a);
    }
    Subst::new(ps, xs)
}

/// The builder of the body of `f`, before the body: function `id` named
/// `name` with the Otter ABI and return type `ret`, one block (entry and
/// current), and one local per declared parameter of `f`, of its MIR type
/// in `param_tys`, named and bound after it, all of them parameters in
/// order. A method with `self` then gets a local `self` of type
/// `ManagedRef(self_ty)` (the owner's struct for these type arguments),
/// which comes first among the parameters and is bound to `self`.
pub fn function_entry(
    id: MirFnId,
    name: String,
    ret: MirType,
    f: &HirFunction,
    param_tys: Vec<MirType>,
    self_ty: MirTypeId,
) -> (b: FnBuilder)
    requires
        param_tys@.len() == f.params@.len(),
        f.params@.len() + 1 < u32::MAX,
    ensures
        ({
            let p = f.params@.len() as int;
            let me = local(p);
            &&& b.wf()
            &&& b.id == id
            &&& b.name@ == name@
            &&& b.abi == Abi::Otter
            &&& b.return_type == ret
            &&& b.blocks@.len() == 1
            &&& is_fresh_block(b.blocks@[0], BlockId(0))
            &&& b.entry == BlockId(0)
            &&& b.current_block == BlockId(0)
            &&& b.loop_stack@.len() == 0
            &&& b.locals@.len() == if f.has_self { p + 1 } else { p }
            &&& forall|k: int|
                0 <= k < p ==> {
                    let lc = #[trigger] b.locals@[k];
                    &&& lc.id == local(k)
                    &&& lc.ty == param_tys@[k]
                    &&& lc.name matches Some(nm) && nm@ == f.params@[k].name@
                }
            &&& f.has_self ==> b.locals@[p].id == me && b.locals@[p].ty == MirType::ManagedRef(self_ty)
                && (b.locals@[p].name matches Some(nm) && nm@ == "self"@)
            &&& b.params@ == if f.has_self {
                seq![me] + Seq::new(p as nat, |k: int| local(k))
            } else {
                Seq::new(p as nat, |k: int| local(k))
            }
            &&& b.scope@.len() == 1
            &&& scope_map(b.scope@[0]@) == if f.has_self {
                bind_run(Map::empty(), param_names(f.params@), 0).insert("self"@, me)
            } else {
                bind_run(Map::empty(), param_names(f.params@), 0)
            }
        }),
{
    let ghost ptys0 = param_tys@;
    let ghost p = f.params@.len() as int;
    let mut b = FnBuilder::new(id, name, Abi::Otter, ret);
    proof {
        assert(scope_map(b.scope@.last()@) =~= Map::empty());
    }
    let mut param_tys = param_tys;
    let mut i: usize = 0;
    while i < f.params.len()
        invariant
            b.wf(),
            b.id == id,
            b.name@ == name@,
            b.abi == Abi::Otter,
            b.return_type == ret,
            b.blocks@.len() == 1,
            is_fresh_block(b.blocks@[0], BlockId(0)),
            b.entry == BlockId(0),
            b.current_block == BlockId(0),
            b.loop_stack@.len() == 0,
            b.scope@.len() == 1,
            p == f.params@.len(),
            p + 1 < u32::MAX,
            i <= p,
            ptys0.len() == p,
            param_tys@ == ptys0.subrange(i as int, p),
            b.locals@.len() == i,
            forall|k: int|
                0 <= k < i ==> {
                    let lc = #[trigger] b.locals@[k];
                    &&& lc.id == local(k)
                    &&& lc.ty == ptys0[k]
                    &&& lc.name matches Some(nm) && nm@ == f.params@[k].name@
                },
            b.params@ == Seq::new(i as nat, |k: int| local(k)),
            scope_map(b.scope@.last()@) == bind_run(Map::empty(), param_names(f.params@).take(i as int), 0),
        decreases p - i,
    {
        let t = param_tys.remove(0);
        let lid = b.new_local(Some(f.params[i].name.clone()), t);
        b.params.push(lid);
        b.bind(f.params[i].name.clone(), lid);
        proof {
            let nm = param_names(f.params@).take(i + 1);
            assert(nm.drop_last() =~= param_names(f.params@).take(i as int));
            assert(nm.last() == f.params@[i as int].name@);
            assert(lid == local(i as int));
            assert(bind_run(Map::empty(), nm, 0) == bind_run(Map::empty(), nm.drop_last(), 0).insert(
                nm.last(),
                local(i as int),
            ));
            assert(b.params@ =~= Seq::new((i + 1) as nat, |k: int| local(k)));
            assert(param_tys@ =~= ptys0.subrange(i + 1, p));
        }
        i = i + 1;
    }
    proof {
        assert(param_names(f.params@).take(p) =~= param_names(f.params@));
    }
    if f.has_self {
        let me = b.new_local(Some("self".to_owned()), MirType::ManagedRef(self_ty));
        b.params.insert(0, me);
        b.bind("self".to_owned(), me);
        proof {
            assert(b.params@ =~= seq![me] + Seq::new(p as nat, |k: int| local(k)));
        }
    }
    b
}

/// The finished body: unless an early return already ended the current
/// block, it returns `trailing` (the body's value, already converted to the
/// declared return type, or nothing).
pub fn finish_function(b: FnBuilder, trailing: Option<Operand>) -> (r: MirFunction)
    requires
        b.wf(),
        b.has_block(b.current_block),
    ensures
        r.id == b.id,
        r.name@ == b.name@,
        r.abi == b.abi,
        r.params@ == b.params@,
        r.locals@ == b.locals@,
        r.blocks@ == if b.current().terminator is Unreachable {
            b.blocks@.update(
                b.current_block.0 as int,
                MirBlock { terminator: Terminator::Return(trailing), ..b.current() },
            )
        } else {
            b.blocks@
        },
        r.entry == b.entry,
        r.return_type == b.return_type,
{
    let mut b = b;
    b.terminate_if_open(Terminator::Return(trailing));
    b.finish()
}

/// A body-less function imported over FFI: function `id` named as declared,
/// with the Extern ABI and return type `ret`, one parameter per declared
/// parameter (of its MIR type in `param_tys`, behind a pointer where
/// declared so, named after it) and no blocks.
pub fn extern_import(id: MirFnId, f: &HirFunction, ret: MirType, param_tys: Vec<MirType>) -> (r: MirFunction)
    requires
        param_tys@.len() == f.params@.len(),
        f.params@.len() < u32::MAX,
    ensures
        r.id == id,
        r.name@ == f.name@,
        r.abi == Abi::Extern,
        r.return_type == ret,
        r.blocks@.len() == 0,
        r.locals@.len() == f.params@.len(),
        forall|k: int|
            0 <= k < f.params@.len() ==> {
                let lc = #[trigger] r.locals@[k];
                &&& lc.id == local(k)
                &&& lc.ty == param_mty(f.params@[k].is_pointer, param_tys@[k])
                &&& lc.name matches Some(nm) && nm@ == f.params@[k].name@
            },
        r.params@ == Seq::new(f.params@.len(), |k: int| local(k)),
        r.entry == BlockId(0),
{
    let ghost ptys0 = param_tys@;
    let ghost p = f.params@.len() as int;
    let mut b = FnBuilder::new(id, f.name.clone(), Abi::Extern, ret);
    let mut param_tys = param_tys;
    let mut i: usize = 0;
    while i < f.params.len()
        invariant
            b.wf(),
            b.id == id,
            b.name@ == f.name@,
            b.abi == Abi::Extern,
            b.return_type == ret,
            b.entry == BlockId(0),
            p == f.params@.len(),
            p < u32::MAX,
            i <= p,
            ptys0.len() == p,
            param_tys@ == ptys0.subrange(i as int, p),
            b.locals@.len() == i,
            forall|k: int|
                0 <= k < i ==> {
                    let lc = #[trigger] b.locals@[k];
                    &&& lc.id == local(k)
                    &&& lc.ty == param_mty(f.params@[k].is_pointer, ptys0[k])
                    &&& lc.name matches Some(nm) && nm@ == f.params@[k].name@
                },
            b.params@ == Seq::new(i as nat, |k: int| local(k)),
        decreases p - i,
    {
        let t = param_tys.remove(0);
        let ty = if f.params[i].is_pointer {
            MirType::Pointer(Box::new(t))
        } else {
            t
        };
        let lid = b.new_local(Some(f.params[i].name.clone()), ty);
        b.params.push(lid);
        proof {
            assert(b.params@ =~= Seq::new((i + 1) as nat, |k: int| local(k)));
            assert(param_tys@ =~= ptys0.subrange(i + 1, p));
        }
        i = i + 1;
    }
    let mut out = b.finish();
    out.blocks.clear();
    out
}

/// The MIR type of a struct field of MIR type `t`: behind a raw pointer
/// when an extern struct declares the field as a pointer.
pub open spec fn field_mty(is_extern: bool, is_pointer: bool, t: MirType) -> MirType {
    if is_pointer && is_extern {
        MirType::Pointer(Box::new(t))
    } else {
        t
    }
}

/// The fields of an instance of `s` whose field types lower to `tys`.
pub open spec fn struct_fields(s: HirStruct, tys: Seq<MirType>) -> Seq<MirField> {
    Seq::new(
        s.fields@.len(),
        |k: int| MirField { name: s.fields@[k].name, ty: field_mty(s.is_extern, s.fields@[k].is_pointer, tys[k]) },
    )
}

/// The definition of the instance of struct `s` for the type arguments
/// `args`, whose fields' types lower to `field_tys` in order: named
/// `module::Struct<args>`, one field per declared field (behind a pointer
/// where an extern struct declares one), laid out in declaration order
/// (see `compute_layout`), managed unless the struct is extern.
pub fn struct_def(hir: &Hir, s: &HirStruct, args: &Vec<ResolvedType>, field_tys: Vec<MirType>) -> (r: MirTypeDef)
    requires
        module_at(hir.modules@, s.module.0, 0) is Some,
        all_nameable(*hir, models(args@)),
        field_tys@.len() == s.fields@.len(),
        fields_fit(field_sizes(struct_fields(*s, field_tys@)), s.fields@.len()),
        ({
            let (size, align) = fields_upto(field_sizes(struct_fields(*s, field_tys@)), s.fields@.len());
            size + align - 1 <= u32::MAX
        }),
    ensures
        r matches MirTypeDef::Struct { name, fields, layout, kind } && {
            &&& name@ == module_name(*hir, s.module.0) + "::"@ + s.name@ + args_symbol(*hir, models(args@))
            &&& fields@ == struct_fields(*s, field_tys@)
            &&& layout == spec_compute_layout(fields@)
            &&& kind == if s.is_extern {
                StructKind::Extern
            } else {
                StructKind::Managed
            }
        },
{
    let ghost tys0 = field_tys@;
    let mut field_tys = field_tys;
    let mut fields: Vec<MirField> = Vec::new();
    let mut i: usize = 0;
    while i < s.fields.len()
        invariant
            i <= s.fields@.len(),
            tys0.len() == s.fields@.len(),
            field_tys@ == tys0.subrange(i as int, tys0.len() as int),
            fields@ == struct_fields(*s, tys0).take(i as int),
        decreases s.fields@.len() - i,
    {
        let t = field_tys.remove(0);
        let ty = if s.fields[i].is_pointer && s.is_extern {
            MirType::Pointer(Box::new(t))
        } else {
            t
        };
        fields.push(MirField { name: s.fields[i].name.clone(), ty });
        proof {
            assert(fields@ =~= struct_fields(*s, tys0).take(i + 1));
            assert(field_tys@ =~= tys0.subrange(i + 1, tys0.len() as int));
        }
        i = i + 1;
    }
    proof {
        assert(fields@ =~= struct_fields(*s, tys0));
    }
    let layout = compute_layout(fields.as_slice());
    let kind = if s.is_extern {
        StructKind::Extern
    } else {
        StructKind::Managed
    };
    let name = name_struct(hir, s, args);
    MirTypeDef::Struct { name, fields, layout, kind }
}

/// The binding of each of `params` to the argument at its position (the
/// last binding of a parameter listed twice wins).
pub open spec fn positional(params: Seq<TypeParamId>, args: Seq<TypeModel>) -> spec_fn(u32) -> Option<TypeModel> {
    |id: u32| bound_upto(params, args, min_len(params.len() as int, args.len() as int), id)
}

/// The interfaces that the instance of `s` for `args` implements, with
/// their type arguments under that instance (each of the struct's type
/// parameters bound to the argument at its position): one vtable is built
/// for each.
pub fn struct_interfaces(s: &HirStruct, args: &Vec<ResolvedType>) -> (r: Vec<(TypeId, Vec<ResolvedType>)>)
    ensures
        r@.len() == s.implements@.len(),
        forall|k: int|
            0 <= k < r@.len() ==> {
                &&& (#[trigger] r@[k]).0 == s.implements@[k].0
                &&& models(r@[k].1@) == subst_models(
                    positional(s.type_params@, models(args@)),
                    models(s.implements@[k].1@),
                )
            },
{
    let sub = positional_subst(&s.type_params, args);
    let mut out: Vec<(TypeId, Vec<ResolvedType>)> = Vec::new();
    let mut k: usize = 0;
    while k < s.implements.len()
        invariant
            k <= s.implements@.len(),
            out@.len() == k,
            sub.lookup() == positional(s.type_params@, models(args@)),
            forall|j: int|
                0 <= j < k ==> {
                    &&& (#[trigger] out@[j]).0 == s.implements@[j].0
                    &&& models(out@[j].1@) == subst_models(
                        positional(s.type_params@, models(args@)),
                        models(s.implements@[j].1@),
                    )
                },
        decreases s.implements@.len() - k,
    {
        let concrete = sub.apply_all(&s.implements[k].1);
        out.push((s.implements[k].0, concrete));
        k = k + 1;
    }
    out
}

/// The substitution that binds each of `params` to the argument at its
/// position (see `positional`).
pub fn positional_subst(params: &Vec<TypeParamId>, args: &Vec<ResolvedType>) -> (r: Subst)
    ensures
        r.lookup() == positional(params@, models(args@)),
{
    let mut ids: Vec<TypeParamId> = Vec::new();
    let mut i: usize = 0;
    while i < params.len()
        invariant
            i <= params@.len(),
            ids@ == params@.take(i as int),
        decreases params@.len() - i,
    {
        ids.push(params[i]);
        proof {
            assert(ids@ =~= params@.take(i + 1));
        }
        i = i + 1;
    }
    proof {
        assert(ids@ =~= params@);
    }
    let cargs = crate::hir::clone_types(args);
    let ghost cm = models(cargs@);
    let ghost idv = ids@;
    proof {
        lemma_models(args@);
        lemma_models(cargs@);
    }
    let sub = Subst::new(ids, cargs);
    proof {
        assert forall|id: u32| #[trigger] sub.lookup()(id) == positional(params@, models(args@))(id) by {
            assert(sub.lookup()(id) == sub.binding(id));
            assert(sub.binding(id) == bound_upto(idv, cm, min_len(idv.len() as int, cm.len() as int), id));
        }
        assert(sub.lookup() =~= positional(params@, models(args@)));
    }
    sub
}

} // verus!
