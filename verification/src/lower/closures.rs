use vstd::prelude::*;

use crate::hir::{HirCapture, HirParam};
use crate::lower::builder::{lookup_scopes, scope_map, FnBuilder};
use crate::lower::casts::local;
use crate::mir::{AssignValue, LocalId, MirFnId, MirLocal, MirType, MirTypeId, Operand, Stmt};

verus! {

/// The values a closure captures, read at the closure's literal: the
/// current binding of each captured name, in the order of `captures`. They
/// fill the closure's environment, one field per capture. Every captured
/// name must be bound.
pub fn closure_env_operands(b: &FnBuilder, captures: &Vec<HirCapture>) -> (r: Vec<Operand>)
    requires
        forall|i: int| 0 <= i < captures@.len() ==> lookup_scopes(b.scope@, (#[trigger] captures@[i]).name@) is Some,
    ensures
        r@.len() == captures@.len(),
        forall|i: int|
            0 <= i < captures@.len() ==> #[trigger] r@[i] == Operand::Copy(
                lookup_scopes(b.scope@, captures@[i].name@).unwrap(),
            ),
{
    let mut out: Vec<Operand> = Vec::new();
    let mut i: usize = 0;
    while i < captures.len()
        invariant
            i <= captures@.len(),
            out@.len() == i,
            forall|k: int| 0 <= k < captures@.len() ==> lookup_scopes(b.scope@, (#[trigger] captures@[k]).name@) is Some,
            forall|k: int|
                0 <= k < i ==> #[trigger] out@[k] == Operand::Copy(lookup_scopes(b.scope@, captures@[k].name@).unwrap()),
        decreases captures@.len() - i,
    {
        let local = match b.lookup(captures[i].name.as_str()) {
            Some(l) => l,
            None => {
                assert(lookup_scopes(b.scope@, captures@[i as int].name@) is Some);
                return out;
            },
        };
        out.push(Operand::Copy(local));
        i = i + 1;
    }
    out
}

/// `m` after binding `names[k]` to local `start + k`, in order: a later
/// binding of a name hides an earlier one.
pub open spec fn bind_run(m: Map<Seq<char>, LocalId>, names: Seq<Seq<char>>, start: int) -> Map<Seq<char>, LocalId>
    decreases names.len(),
{
    if names.len() == 0 {
        m
    } else {
        bind_run(m, names.drop_last(), start).insert(names.last(), local(start + names.len() - 1))
    }
}

pub open spec fn param_names(ps: Seq<HirParam>) -> Seq<Seq<char>> {
    ps.map_values(|p: HirParam| p.name@)
}

pub open spec fn capture_names(cs: Seq<HirCapture>) -> Seq<Seq<char>> {
    cs.map_values(|c: HirCapture| c.name@)
}

/// The MIR type of a parameter of MIR type `t`: behind a raw pointer when
/// the parameter is declared as one.
pub open spec fn param_mty(is_pointer: bool, t: MirType) -> MirType {
    if is_pointer {
        MirType::Pointer(Box::new(t))
    } else {
        t
    }
}

/// The entry of a closure's own function, before its body: `b` is the
/// builder of that function. A new parameter `__env` of type `env` (the
/// closure's environment struct) comes first; then one parameter per
/// declared parameter, of its MIR type in `param_tys` (behind a pointer
/// where declared so), bound to its name; then, for each capture in
/// order, a new local named after it, of its MIR type in `capture_tys`,
/// which the current block reads out of field `i` of the environment and
/// which the innermost scope binds the capture's name to. The result is
/// the `__env` local.
pub fn closure_prologue(
    b: &mut FnBuilder,
    env: MirTypeId,
    params: &Vec<HirParam>,
    param_tys: Vec<MirType>,
    captures: &Vec<HirCapture>,
    capture_tys: Vec<MirType>,
) -> (r: LocalId)
    requires
        old(b).wf(),
        old(b).has_block(old(b).current_block),
        old(b).scope@.len() > 0,
        param_tys@.len() == params@.len(),
        capture_tys@.len() == captures@.len(),
        old(b).locals@.len() + 1 + params@.len() + captures@.len() < u32::MAX,
    ensures
        ({
            let l0 = old(b).locals@.len() as int;
            let p = params@.len() as int;
            let q = captures@.len() as int;
            &&& final(b).wf()
            &&& r == local(l0)
            &&& final(b).locals@.len() == l0 + 1 + p + q
            &&& final(b).locals@.take(l0) == old(b).locals@
            &&& final(b).locals@[l0].id == r && final(b).locals@[l0].ty == MirType::ManagedRef(env)
            &&& final(b).locals@[l0].name matches Some(nm) && nm@ == "__env"@
            &&& forall|k: int|
                0 <= k < p ==> {
                    let lc = #[trigger] final(b).locals@[l0 + 1 + k];
                    &&& lc.id == local(l0 + 1 + k)
                    &&& lc.ty == param_mty(params@[k].is_pointer, param_tys@[k])
                    &&& lc.name matches Some(nm) && nm@ == params@[k].name@
                }
            &&& forall|k: int|
                0 <= k < q ==> {
                    let lc = #[trigger] final(b).locals@[l0 + 1 + p + k];
                    &&& lc.id == local(l0 + 1 + p + k)
                    &&& lc.ty == capture_tys@[k]
                    &&& lc.name matches Some(nm) && nm@ == captures@[k].name@
                }
            &&& final(b).params@ == old(b).params@.push(r) + Seq::new(p as nat, |k: int| local(l0 + 1 + k))
            &&& final(b).blocks@.len() == old(b).blocks@.len()
            &&& forall|k: int|
                0 <= k < old(b).blocks@.len() && k != old(b).current_block.0 ==> #[trigger] final(b).blocks@[k]
                    == old(b).blocks@[k]
            &&& final(b).current().id == old(b).current().id
            &&& final(b).current().terminator == old(b).current().terminator
            &&& final(b).current().stmts@ == old(b).current().stmts@ + Seq::new(
                q as nat,
                |k: int| Stmt::Assign(local(l0 + 1 + p + k), AssignValue::Field(Operand::Copy(r), k as u32)),
            )
            &&& final(b).scope@.len() == old(b).scope@.len()
            &&& final(b).scope@.drop_last() == old(b).scope@.drop_last()
            &&& scope_map(final(b).scope@.last()@) == bind_run(
                bind_run(scope_map(old(b).scope@.last()@), param_names(params@), l0 + 1),
                capture_names(captures@),
                l0 + 1 + p,
            )
            &&& final(b).current_block == old(b).current_block
            &&& final(b).loop_stack@ == old(b).loop_stack@
            &&& final(b).entry == old(b).entry
            &&& final(b).return_type == old(b).return_type
        }),
{
    let ghost l0 = b.locals@.len() as int;
    let ghost p = params@.len() as int;
    let ghost q = captures@.len() as int;
    let ghost m0 = scope_map(b.scope@.last()@);
    let ghost cur0 = b.current();
    let ghost blocks0 = b.blocks@;
    let ghost ptys0 = param_tys@;
    let ghost ctys0 = capture_tys@;
    let env_local = b.new_local(Some("__env".to_owned()), MirType::ManagedRef(env));
    b.params.push(env_local);
    let ghost params1 = b.params@;
    let mut param_tys = param_tys;
    let mut i: usize = 0;
    while i < params.len()
        invariant
            b.wf(),
            b.has_block(b.current_block),
            b.scope@.len() > 0,
            i <= p,
            l0 == old(b).locals@.len(),
            blocks0 == old(b).blocks@,
            p == params@.len(),
            q == captures@.len(),
            l0 + 1 + p + q < u32::MAX,
            env_local == local(l0),
            param_tys@ == ptys0.subrange(i as int, p),
            ptys0.len() == p,
            b.locals@.len() == l0 + 1 + i,
            b.locals@.take(l0) == old(b).locals@,
            b.locals@[l0].id == env_local && b.locals@[l0].ty == MirType::ManagedRef(env),
            b.locals@[l0].name matches Some(nm) && nm@ == "__env"@,
            forall|k: int|
                0 <= k < i ==> {
                    let lc = #[trigger] b.locals@[l0 + 1 + k];
                    &&& lc.id == local(l0 + 1 + k)
                    &&& lc.ty == param_mty(params@[k].is_pointer, ptys0[k])
                    &&& lc.name matches Some(nm) && nm@ == params@[k].name@
                },
            b.params@ == params1 + Seq::new(i as nat, |k: int| local(l0 + 1 + k)),
            params1 == old(b).params@.push(env_local),
            b.blocks@ == blocks0,
            b.current_block == old(b).current_block,
            b.scope@.len() == old(b).scope@.len(),
            b.scope@.drop_last() == old(b).scope@.drop_last(),
            scope_map(b.scope@.last()@) == bind_run(m0, param_names(params@).take(i as int), l0 + 1),
            b.loop_stack@ == old(b).loop_stack@,
            b.entry == old(b).entry,
            b.return_type == old(b).return_type,
        decreases p - i,
    {
        let t = param_tys.remove(0);
        let ty = if params[i].is_pointer {
            MirType::Pointer(Box::new(t))
        } else {
            t
        };
        let ghost before = b.locals@;
        let id = b.new_local(Some(params[i].name.clone()), ty);
        b.bind(params[i].name.clone(), id);
        b.params.push(id);
        proof {
            let nm = param_names(params@).take(i + 1);
            assert(nm.drop_last() =~= param_names(params@).take(i as int));
            assert(nm.last() == params@[i as int].name@);
            assert(id == local(l0 + 1 + i));
            assert(bind_run(m0, nm, l0 + 1) == bind_run(m0, nm.drop_last(), l0 + 1).insert(nm.last(), local(l0 + 1 + i)));
            assert(b.params@ =~= params1 + Seq::new((i + 1) as nat, |k: int| local(l0 + 1 + k)));
            assert(b.locals@.take(l0) =~= old(b).locals@) by {
                assert(b.locals@.take(l0) =~= before.take(l0));
            }
            assert(param_tys@ =~= ptys0.subrange(i + 1, p));
        }
        i = i + 1;
    }
    proof {
        assert(param_names(params@).take(p) =~= param_names(params@));
    }
    let ghost m1 = scope_map(b.scope@.last()@);
    let mut capture_tys = capture_tys;
    let mut j: usize = 0;
    while j < captures.len()
        invariant
            b.wf(),
            b.has_block(b.current_block),
            b.scope@.len() > 0,
            j <= q,
            l0 == old(b).locals@.len(),
            blocks0 == old(b).blocks@,
            cur0 == old(b).current(),
            p == params@.len(),
            q == captures@.len(),
            l0 + 1 + p + q < u32::MAX,
            env_local == local(l0),
            capture_tys@ == ctys0.subrange(j as int, q),
            ctys0.len() == q,
            b.locals@.len() == l0 + 1 + p + j,
            b.locals@.take(l0) == old(b).locals@,
            b.locals@[l0].id == env_local && b.locals@[l0].ty == MirType::ManagedRef(env),
            b.locals@[l0].name matches Some(nm) && nm@ == "__env"@,
            forall|k: int|
                0 <= k < p ==> {
                    let lc = #[trigger] b.locals@[l0 + 1 + k];
                    &&& lc.id == local(l0 + 1 + k)
                    &&& lc.ty == param_mty(params@[k].is_pointer, ptys0[k])
                    &&& lc.name matches Some(nm) && nm@ == params@[k].name@
                },
            forall|k: int|
                0 <= k < j ==> {
                    let lc = #[trigger] b.locals@[l0 + 1 + p + k];
                    &&& lc.id == local(l0 + 1 + p + k)
                    &&& lc.ty == ctys0[k]
                    &&& lc.name matches Some(nm) && nm@ == captures@[k].name@
                },
            b.params@ == old(b).params@.push(env_local) + Seq::new(p as nat, |k: int| local(l0 + 1 + k)),
            b.blocks@.len() == blocks0.len(),
            forall|k: int|
                0 <= k < blocks0.len() && k != old(b).current_block.0 ==> #[trigger] b.blocks@[k] == blocks0[k],
            b.current().id == cur0.id,
            b.current().terminator == cur0.terminator,
            b.current().stmts@ == cur0.stmts@ + Seq::new(
                j as nat,
                |k: int| Stmt::Assign(local(l0 + 1 + p + k), AssignValue::Field(Operand::Copy(env_local), k as u32)),
            ),
            b.current_block == old(b).current_block,
            b.scope@.len() == old(b).scope@.len(),
            b.scope@.drop_last() == old(b).scope@.drop_last(),
            scope_map(b.scope@.last()@) == bind_run(m1, capture_names(captures@).take(j as int), l0 + 1 + p),
            m1 == bind_run(m0, param_names(params@), l0 + 1),
            b.loop_stack@ == old(b).loop_stack@,
            b.entry == old(b).entry,
            b.return_type == old(b).return_type,
        decreases q - j,
    {
        let t = capture_tys.remove(0);
        let ghost before = b.locals@;
        let ghost stmts_before = b.current().stmts@;
        let id = b.new_local(Some(captures[j].name.clone()), t);
        b.push_stmt(Stmt::Assign(id, AssignValue::Field(Operand::Copy(env_local), j as u32)));
        b.bind(captures[j].name.clone(), id);
        proof {
            let nm = capture_names(captures@).take(j + 1);
            assert(nm.drop_last() =~= capture_names(captures@).take(j as int));
            assert(nm.last() == captures@[j as int].name@);
            assert(id == local(l0 + 1 + p + j));
            assert(bind_run(m1, nm, l0 + 1 + p) == bind_run(m1, nm.drop_last(), l0 + 1 + p).insert(
                nm.last(),
                local(l0 + 1 + p + j),
            ));
            assert(b.current().stmts@ =~= cur0.stmts@ + Seq::new(
                (j + 1) as nat,
                |k: int| Stmt::Assign(local(l0 + 1 + p + k), AssignValue::Field(Operand::Copy(env_local), k as u32)),
            ));
            assert(b.locals@.take(l0) =~= old(b).locals@) by {
                assert(b.locals@.take(l0) =~= before.take(l0));
            }
            assert(capture_tys@ =~= ctys0.subrange(j + 1, q));
        }
        j = j + 1;
    }
    proof {
        assert(capture_names(captures@).take(q) =~= capture_names(captures@));
    }
    env_local
}

/// The closure value at the literal site: a new temporary of the
/// closure's MIR type `closure_mty` gets a closure of function `body_fn`
/// whose environment holds `env_ops` (the captured values, see
/// `closure_env_operands`); the result is a copy of the temporary.
pub fn alloc_closure(b: &mut FnBuilder, body_fn: MirFnId, env_ops: Vec<Operand>, closure_mty: MirType) -> (r: Operand)
    requires
        old(b).wf(),
        old(b).has_block(old(b).current_block),
        old(b).locals@.len() < u32::MAX,
    ensures
        ({
            let tmp = local(old(b).locals@.len() as int);
            &&& final(b).wf()
            &&& r == Operand::Copy(tmp)
            &&& final(b).locals@ == old(b).locals@.push(MirLocal { id: tmp, name: None, ty: closure_mty })
            &&& final(b).blocks@.len() == old(b).blocks@.len()
            &&& final(b).current().stmts@ == old(b).current().stmts@.push(
                Stmt::Assign(tmp, AssignValue::AllocClosure(body_fn, env_ops)),
            )
            &&& final(b).current().terminator == old(b).current().terminator
            &&& forall|i: int|
                0 <= i < old(b).blocks@.len() && i != old(b).current_block.0 ==> #[trigger] final(b).blocks@[i]
                    == old(b).blocks@[i]
            &&& final(b).same_frame(old(b))
        }),
{
    b.emit(AssignValue::AllocClosure(body_fn, env_ops), closure_mty)
}

} // verus!
