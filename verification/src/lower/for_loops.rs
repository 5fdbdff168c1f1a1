use vstd::prelude::*;

use crate::hir::PrimitiveType;
use crate::lower::builder::{is_fresh_block, scope_map, FnBuilder};
use crate::lower::casts::local;
use crate::lower::loops::{int64, open_index_loop, IndexLoop};
use crate::mir::{
    AssignValue, BinOp, BlockId, Callee, LocalId, MirBlock, MirConst, MirFnId, MirLocal, MirType, MirTypeId, Operand, Stmt,
    Terminator,
};

verus! {

/// How an element is read out of what a list's `get` returned into
/// local `got`: a nullable reference is the element itself; a union
/// `T | null` gives its payload, read as the union's type.
pub open spec fn element_read(got_mty: MirType, got: int) -> AssignValue {
    match got_mty {
        MirType::Union(u) => AssignValue::UnionPayload(Operand::Copy(local(got)), u),
        _ => AssignValue::Use(Operand::Copy(local(got))),
    }
}

/// `s` stores in `dst` what a direct call of `f` on `args` returns.
pub open spec fn is_static_call(s: Stmt, dst: LocalId, f: MirFnId, args: Seq<Operand>) -> bool {
    s matches Stmt::Assign(d, AssignValue::Call(Callee::Static(g), a)) && d == dst && g == f && a@ == args
}

/// The loop of `for x in list` up to its body, given the lowered `list` of
/// MIR type `list_mty`, the monomorphized `size` and `get` of the list
/// type, the MIR type `got_mty` that `get` returns (a nullable reference or
/// a union with null) and the element's MIR type `elem_mty`.
///
/// In the current block: a new local `__it` takes the list and a new
/// temporary the result of `size(__it)`; then the index loop over that
/// count opens (see `open_index_loop`). The loop's body block then reads
/// `get(__it, __i)` into a new temporary and the element out of it into a
/// new local named `var_name`, which the innermost scope binds `var_name`
/// to. Statements go to the body; the caller lowers the loop's body and
/// closes the loop with `close_index_loop`.
pub fn open_list_loop(
    b: &mut FnBuilder,
    var_name: String,
    list: Operand,
    list_mty: MirType,
    size_fn: MirFnId,
    get_fn: MirFnId,
    got_mty: MirType,
    elem_mty: MirType,
) -> (r: IndexLoop)
    requires
        old(b).wf(),
        old(b).has_block(old(b).current_block),
        old(b).locals@.len() + 6 < u32::MAX,
        old(b).blocks@.len() + 4 < u32::MAX,
        old(b).scope@.len() > 0,
        got_mty is NullableRef || got_mty is Union,
    ensures
        ({
            let c = old(b).current_block.0 as int;
            let n0 = old(b).blocks@.len() as int;
            let l0 = old(b).locals@.len() as int;
            let it = local(l0);
            let n = local(l0 + 1);
            let i = local(l0 + 2);
            let done = local(l0 + 3);
            &&& final(b).wf()
            &&& r == (IndexLoop {
                index: i,
                head: BlockId(n0 as u32),
                body: BlockId((n0 + 1) as u32),
                cont: BlockId((n0 + 2) as u32),
                exit: BlockId((n0 + 3) as u32),
            })
            &&& final(b).locals@.len() == l0 + 6
            &&& final(b).locals@.take(l0) == old(b).locals@
            &&& final(b).locals@[l0].id == it && final(b).locals@[l0].ty == list_mty
            &&& final(b).locals@[l0].name matches Some(nm) && nm@ == "__it"@
            &&& final(b).locals@[l0 + 1] == (MirLocal { id: n, name: None, ty: int64() })
            &&& final(b).locals@[l0 + 2].id == i && final(b).locals@[l0 + 2].ty == int64()
            &&& final(b).locals@[l0 + 3] == (MirLocal {
                id: done,
                name: None,
                ty: MirType::Primitive(PrimitiveType::Bool),
            })
            &&& final(b).locals@[l0 + 4] == (MirLocal { id: local(l0 + 4), name: None, ty: got_mty })
            &&& final(b).locals@[l0 + 5].id == local(l0 + 5) && final(b).locals@[l0 + 5].ty == elem_mty
            &&& final(b).locals@[l0 + 5].name matches Some(nm) && nm@ == var_name@
            &&& final(b).blocks@.len() == n0 + 4
            &&& forall|k: int| 0 <= k < n0 && k != c ==> #[trigger] final(b).blocks@[k] == old(b).blocks@[k]
            &&& final(b).blocks@[c].id == old(b).current().id
            &&& final(b).blocks@[c].stmts@.len() == old(b).current().stmts@.len() + 3
            &&& final(b).blocks@[c].stmts@.take(old(b).current().stmts@.len() as int) == old(b).current().stmts@
            &&& final(b).blocks@[c].stmts@[old(b).current().stmts@.len() as int] == Stmt::Assign(
                it,
                AssignValue::Use(list),
            )
            &&& is_static_call(
                final(b).blocks@[c].stmts@[old(b).current().stmts@.len() + 1int],
                n,
                size_fn,
                seq![Operand::Copy(it)],
            )
            &&& final(b).blocks@[c].stmts@[old(b).current().stmts@.len() + 2int] == Stmt::Assign(
                i,
                AssignValue::Use(Operand::Const(MirConst::Int(0, PrimitiveType::Int64))),
            )
            &&& final(b).blocks@[c].terminator == Terminator::Goto(r.head)
            &&& final(b).blocks@[n0].id == r.head
            &&& final(b).blocks@[n0].stmts@ == seq![
                Stmt::Assign(done, AssignValue::Bin(BinOp::Ge, Operand::Copy(i), Operand::Copy(n))),
            ]
            &&& final(b).blocks@[n0].terminator == Terminator::CondBr(Operand::Copy(done), r.exit, r.body)
            &&& final(b).blocks@[n0 + 1].id == r.body
            &&& final(b).blocks@[n0 + 1].stmts@.len() == 2
            &&& is_static_call(
                final(b).blocks@[n0 + 1].stmts@[0],
                local(l0 + 4),
                get_fn,
                seq![Operand::Copy(it), Operand::Copy(i)],
            )
            &&& final(b).blocks@[n0 + 1].stmts@[1] == Stmt::Assign(local(l0 + 5), element_read(got_mty, l0 + 4))
            &&& final(b).blocks@[n0 + 1].terminator is Unreachable
            &&& is_fresh_block(final(b).blocks@[n0 + 2], r.cont)
            &&& is_fresh_block(final(b).blocks@[n0 + 3], r.exit)
            &&& final(b).current_block == r.body
            &&& final(b).loop_stack@ == old(b).loop_stack@.push((r.cont, r.exit))
            &&& final(b).scope@.len() == old(b).scope@.len()
            &&& final(b).scope@.drop_last() == old(b).scope@.drop_last()
            &&& scope_map(final(b).scope@.last()@) == scope_map(old(b).scope@.last()@).insert(
                var_name@,
                local(l0 + 5),
            )
            &&& final(b).params@ == old(b).params@
            &&& final(b).entry == old(b).entry
            &&& final(b).return_type == old(b).return_type
        }),
{
    let ghost c = b.current_block.0 as int;
    let ghost n0 = b.blocks@.len() as int;
    let ghost l0 = b.locals@.len() as int;
    let ghost cur0 = b.current();
    let ghost blocks0 = b.blocks@;
    let it = b.new_local(Some("__it".to_owned()), list_mty);
    b.push_stmt(Stmt::Assign(it, AssignValue::Use(list)));
    let n = b.new_temp(MirType::Primitive(PrimitiveType::Int64));
    let size_args = vec![Operand::Copy(it)];
    let ghost sv = size_args;
    assert(sv@ =~= seq![Operand::Copy(it)]);
    b.push_stmt(Stmt::Assign(n, AssignValue::Call(Callee::Static(size_fn), size_args)));
    let ghost blocks1 = b.blocks@;
    let ghost locals1 = b.locals@;
    let lp = open_index_loop(b, n);
    let ghost blocks2 = b.blocks@;
    let ghost locals2 = b.locals@;
    let read = match &got_mty {
        MirType::Union(u) => Some(*u),
        _ => None,
    };
    let got = b.new_temp(got_mty);
    let get_args = vec![Operand::Copy(it), Operand::Copy(lp.index)];
    let ghost gv = get_args;
    assert(gv@ =~= seq![Operand::Copy(it), Operand::Copy(lp.index)]);
    b.push_stmt(Stmt::Assign(got, AssignValue::Call(Callee::Static(get_fn), get_args)));
    let x = b.new_local(Some(var_name.clone()), elem_mty);
    let rv = match read {
        Some(u) => AssignValue::UnionPayload(Operand::Copy(got), u),
        None => AssignValue::Use(Operand::Copy(got)),
    };
    b.push_stmt(Stmt::Assign(x, rv));
    b.bind(var_name, x);
    proof {
        let m = cur0.stmts@.len() as int;
        assert(blocks1[c].stmts@.take(m) =~= cur0.stmts@);
        assert forall|k: int| 0 <= k < n0 && k != c implies #[trigger] b.blocks@[k] == blocks0[k] by {
            assert(b.blocks@[k] == blocks2[k]);
            assert(blocks2[k] == blocks1[k]);
        }
        assert(b.blocks@[c] == blocks2[c]);
        assert(b.blocks@[c].stmts@ == blocks1[c].stmts@.push(
            Stmt::Assign(lp.index, AssignValue::Use(Operand::Const(MirConst::Int(0, PrimitiveType::Int64)))),
        ));
        assert(b.blocks@[c].stmts@.take(m) =~= cur0.stmts@);
        assert(b.blocks@[c].stmts@[m + 1] == Stmt::Assign(n, AssignValue::Call(Callee::Static(size_fn), sv)));
        assert(b.blocks@[n0 + 1].stmts@[0] == Stmt::Assign(got, AssignValue::Call(Callee::Static(get_fn), gv)));
        assert(locals1 == old(b).locals@.push(locals1[l0]).push(locals1[l0 + 1]));
        assert(b.locals@ == locals2.push(b.locals@[l0 + 4]).push(b.locals@[l0 + 5]));
        assert forall|k: int| 0 <= k < l0 + 2 implies #[trigger] b.locals@[k] == locals1[k] by {
            assert(b.locals@[k] == locals2[k]);
            assert(locals2[k] == locals2.take(l0 + 2)[k]);
        }
        assert(b.locals@.take(l0) =~= old(b).locals@);
    }
    lp
}

/// What the loop of `for e in map` calls and builds, all monomorphized for
/// the map's key and value types: the map's `keys`, the key list's `size`
/// and `get`, the map's `get`; the MIR types of the map, of its key list,
/// of what the two `get`s return (a nullable reference or a union with
/// null), of a key and of a value; and the `Entry<K, V>` struct.
pub struct MapIteration {
    pub keys_fn: MirFnId,
    pub size_fn: MirFnId,
    pub key_get_fn: MirFnId,
    pub value_get_fn: MirFnId,
    pub map_mty: MirType,
    pub keys_mty: MirType,
    pub key_got_mty: MirType,
    pub key_mty: MirType,
    pub value_got_mty: MirType,
    pub value_mty: MirType,
    pub entry: MirTypeId,
}

/// The loop of `for e in map` up to its body, given the lowered `map`.
///
/// In the current block: a new local `__map` takes the map, a new local
/// `__keys` the result of `keys(__map)` and a new temporary the result of
/// `size(__keys)`; then the index loop over that count opens (see
/// `open_index_loop`). The loop's body block reads the key at `__i` out of
/// `get(__keys, __i)`, the value out of `get(__map, key)`, and stores a new
/// `Entry` of both in a new local named `var_name`, which the innermost
/// scope binds `var_name` to. Statements go to the body; the caller lowers
/// the loop's body and closes the loop with `close_index_loop`.
pub fn open_map_loop(b: &mut FnBuilder, var_name: String, map: Operand, parts: MapIteration) -> (r: IndexLoop)
    requires
        old(b).wf(),
        old(b).has_block(old(b).current_block),
        old(b).locals@.len() + 10 < u32::MAX,
        old(b).blocks@.len() + 4 < u32::MAX,
        old(b).scope@.len() > 0,
        parts.key_got_mty is NullableRef || parts.key_got_mty is Union,
        parts.value_got_mty is NullableRef || parts.value_got_mty is Union,
    ensures
        ({
            let c = old(b).current_block.0 as int;
            let n0 = old(b).blocks@.len() as int;
            let l0 = old(b).locals@.len() as int;
            let m = old(b).current().stmts@.len() as int;
            let mp = local(l0);
            let keys = local(l0 + 1);
            let n = local(l0 + 2);
            let i = local(l0 + 3);
            let done = local(l0 + 4);
            let body = final(b).blocks@[n0 + 1].stmts@;
            &&& final(b).wf()
            &&& r == (IndexLoop {
                index: i,
                head: BlockId(n0 as u32),
                body: BlockId((n0 + 1) as u32),
                cont: BlockId((n0 + 2) as u32),
                exit: BlockId((n0 + 3) as u32),
            })
            &&& final(b).locals@.len() == l0 + 10
            &&& final(b).locals@.take(l0) == old(b).locals@
            &&& final(b).locals@[l0].id == mp && final(b).locals@[l0].ty == parts.map_mty
            &&& final(b).locals@[l0].name matches Some(nm) && nm@ == "__map"@
            &&& final(b).locals@[l0 + 1].id == keys && final(b).locals@[l0 + 1].ty == parts.keys_mty
            &&& final(b).locals@[l0 + 1].name matches Some(nm) && nm@ == "__keys"@
            &&& final(b).locals@[l0 + 2] == (MirLocal { id: n, name: None, ty: int64() })
            &&& final(b).locals@[l0 + 3].id == i && final(b).locals@[l0 + 3].ty == int64()
            &&& final(b).locals@[l0 + 4] == (MirLocal {
                id: done,
                name: None,
                ty: MirType::Primitive(PrimitiveType::Bool),
            })
            &&& final(b).locals@[l0 + 5] == (MirLocal { id: local(l0 + 5), name: None, ty: parts.key_got_mty })
            &&& final(b).locals@[l0 + 6] == (MirLocal { id: local(l0 + 6), name: None, ty: parts.key_mty })
            &&& final(b).locals@[l0 + 7] == (MirLocal { id: local(l0 + 7), name: None, ty: parts.value_got_mty })
            &&& final(b).locals@[l0 + 8] == (MirLocal { id: local(l0 + 8), name: None, ty: parts.value_mty })
            &&& final(b).locals@[l0 + 9].id == local(l0 + 9)
            &&& final(b).locals@[l0 + 9].ty == MirType::ManagedRef(parts.entry)
            &&& final(b).locals@[l0 + 9].name matches Some(nm) && nm@ == var_name@
            &&& final(b).blocks@.len() == n0 + 4
            &&& forall|k: int| 0 <= k < n0 && k != c ==> #[trigger] final(b).blocks@[k] == old(b).blocks@[k]
            &&& final(b).blocks@[c].id == old(b).current().id
            &&& final(b).blocks@[c].stmts@.len() == m + 4
            &&& final(b).blocks@[c].stmts@.take(m) == old(b).current().stmts@
            &&& final(b).blocks@[c].stmts@[m] == Stmt::Assign(mp, AssignValue::Use(map))
            &&& is_static_call(final(b).blocks@[c].stmts@[m + 1], keys, parts.keys_fn, seq![Operand::Copy(mp)])
            &&& is_static_call(final(b).blocks@[c].stmts@[m + 2], n, parts.size_fn, seq![Operand::Copy(keys)])
            &&& final(b).blocks@[c].stmts@[m + 3] == Stmt::Assign(
                i,
                AssignValue::Use(Operand::Const(MirConst::Int(0, PrimitiveType::Int64))),
            )
            &&& final(b).blocks@[c].terminator == Terminator::Goto(r.head)
            &&& final(b).blocks@[n0].id == r.head
            &&& final(b).blocks@[n0].stmts@ == seq![
                Stmt::Assign(done, AssignValue::Bin(BinOp::Ge, Operand::Copy(i), Operand::Copy(n))),
            ]
            &&& final(b).blocks@[n0].terminator == Terminator::CondBr(Operand::Copy(done), r.exit, r.body)
            &&& final(b).blocks@[n0 + 1].id == r.body
            &&& body.len() == 5
            &&& is_static_call(body[0], local(l0 + 5), parts.key_get_fn, seq![Operand::Copy(keys), Operand::Copy(i)])
            &&& body[1] == Stmt::Assign(local(l0 + 6), element_read(parts.key_got_mty, l0 + 5))
            &&& is_static_call(
                body[2],
                local(l0 + 7),
                parts.value_get_fn,
                seq![Operand::Copy(mp), Operand::Copy(local(l0 + 6))],
            )
            &&& body[3] == Stmt::Assign(local(l0 + 8), element_read(parts.value_got_mty, l0 + 7))
            &&& (body[4] matches Stmt::Assign(d, AssignValue::AllocStruct(t, fs)) && d == local(l0 + 9)
                && t == parts.entry && fs@ == seq![Operand::Copy(local(l0 + 6)), Operand::Copy(local(l0 + 8))])
            &&& final(b).blocks@[n0 + 1].terminator is Unreachable
            &&& is_fresh_block(final(b).blocks@[n0 + 2], r.cont)
            &&& is_fresh_block(final(b).blocks@[n0 + 3], r.exit)
            &&& final(b).current_block == r.body
            &&& final(b).loop_stack@ == old(b).loop_stack@.push((r.cont, r.exit))
            &&& final(b).scope@.len() == old(b).scope@.len()
            &&& final(b).scope@.drop_last() == old(b).scope@.drop_last()
            &&& scope_map(final(b).scope@.last()@) == scope_map(old(b).scope@.last()@).insert(
                var_name@,
                local(l0 + 9),
            )
            &&& final(b).params@ == old(b).params@
            &&& final(b).entry == old(b).entry
            &&& final(b).return_type == old(b).return_type
        }),
{
    let ghost c = b.current_block.0 as int;
    let ghost n0 = b.blocks@.len() as int;
    let ghost l0 = b.locals@.len() as int;
    let ghost cur0 = b.current();
    let ghost blocks0 = b.blocks@;
    let ghost m = cur0.stmts@.len() as int;
    let MapIteration {
        keys_fn,
        size_fn,
        key_get_fn,
        value_get_fn,
        map_mty,
        keys_mty,
        key_got_mty,
        key_mty,
        value_got_mty,
        value_mty,
        entry,
    } = parts;
    let mp = b.new_local(Some("__map".to_owned()), map_mty);
    b.push_stmt(Stmt::Assign(mp, AssignValue::Use(map)));
    let keys = b.new_local(Some("__keys".to_owned()), keys_mty);
    let keys_args = vec![Operand::Copy(mp)];
    let ghost kav = keys_args;
    assert(kav@ =~= seq![Operand::Copy(mp)]);
    b.push_stmt(Stmt::Assign(keys, AssignValue::Call(Callee::Static(keys_fn), keys_args)));
    let n = b.new_temp(MirType::Primitive(PrimitiveType::Int64));
    let size_args = vec![Operand::Copy(keys)];
    let ghost sv = size_args;
    assert(sv@ =~= seq![Operand::Copy(keys)]);
    b.push_stmt(Stmt::Assign(n, AssignValue::Call(Callee::Static(size_fn), size_args)));
    let ghost blocks1 = b.blocks@;
    let ghost locals1 = b.locals@;
    let lp = open_index_loop(b, n);
    let ghost blocks2 = b.blocks@;
    let ghost locals2 = b.locals@;
    let key_payload = match &key_got_mty {
        MirType::Union(u) => Some(*u),
        _ => None,
    };
    let value_payload = match &value_got_mty {
        MirType::Union(u) => Some(*u),
        _ => None,
    };
    let k_got = b.new_temp(key_got_mty);
    let kget_args = vec![Operand::Copy(keys), Operand::Copy(lp.index)];
    let ghost kgv = kget_args;
    assert(kgv@ =~= seq![Operand::Copy(keys), Operand::Copy(lp.index)]);
    b.push_stmt(Stmt::Assign(k_got, AssignValue::Call(Callee::Static(key_get_fn), kget_args)));
    let k = b.new_temp(key_mty);
    let k_rv = match key_payload {
        Some(u) => AssignValue::UnionPayload(Operand::Copy(k_got), u),
        None => AssignValue::Use(Operand::Copy(k_got)),
    };
    b.push_stmt(Stmt::Assign(k, k_rv));
    let v_got = b.new_temp(value_got_mty);
    let vget_args = vec![Operand::Copy(mp), Operand::Copy(k)];
    let ghost vgv = vget_args;
    assert(vgv@ =~= seq![Operand::Copy(mp), Operand::Copy(k)]);
    b.push_stmt(Stmt::Assign(v_got, AssignValue::Call(Callee::Static(value_get_fn), vget_args)));
    let v = b.new_temp(value_mty);
    let v_rv = match value_payload {
        Some(u) => AssignValue::UnionPayload(Operand::Copy(v_got), u),
        None => AssignValue::Use(Operand::Copy(v_got)),
    };
    b.push_stmt(Stmt::Assign(v, v_rv));
    let e = b.new_local(Some(var_name.clone()), MirType::ManagedRef(entry));
    let fields = vec![Operand::Copy(k), Operand::Copy(v)];
    let ghost fv = fields;
    assert(fv@ =~= seq![Operand::Copy(k), Operand::Copy(v)]);
    b.push_stmt(Stmt::Assign(e, AssignValue::AllocStruct(entry, fields)));
    b.bind(var_name, e);
    proof {
        assert(blocks1[c].stmts@.take(m) =~= cur0.stmts@);
        assert forall|j: int| 0 <= j < n0 && j != c implies #[trigger] b.blocks@[j] == blocks0[j] by {
            assert(b.blocks@[j] == blocks2[j]);
            assert(blocks2[j] == blocks1[j]);
        }
        assert(b.blocks@[c] == blocks2[c]);
        assert(b.blocks@[c].stmts@ == blocks1[c].stmts@.push(
            Stmt::Assign(lp.index, AssignValue::Use(Operand::Const(MirConst::Int(0, PrimitiveType::Int64)))),
        ));
        assert(b.blocks@[c].stmts@.take(m) =~= cur0.stmts@);
        assert(b.blocks@[c].stmts@[m + 1] == Stmt::Assign(keys, AssignValue::Call(Callee::Static(keys_fn), kav)));
        assert(b.blocks@[c].stmts@[m + 2] == Stmt::Assign(n, AssignValue::Call(Callee::Static(size_fn), sv)));
        let body = b.blocks@[n0 + 1].stmts@;
        assert(body[0] == Stmt::Assign(k_got, AssignValue::Call(Callee::Static(key_get_fn), kgv)));
        assert(body[2] == Stmt::Assign(v_got, AssignValue::Call(Callee::Static(value_get_fn), vgv)));
        assert(body[4] == Stmt::Assign(e, AssignValue::AllocStruct(entry, fv)));
        assert(locals1 == old(b).locals@.push(locals1[l0]).push(locals1[l0 + 1]).push(locals1[l0 + 2]));
        assert forall|j: int| 0 <= j < l0 + 3 implies #[trigger] b.locals@[j] == locals1[j] by {
            assert(b.locals@[j] == locals2[j]);
            assert(locals2[j] == locals2.take(l0 + 3)[j]);
        }
        assert(b.locals@.take(l0) =~= old(b).locals@);
    }
    lp
}

/// `s` stores in `dst` what slot `slot` of interface `iface` returns when
/// called through `recv` on `args`.
pub open spec fn is_virtual_call(
    s: Stmt,
    dst: LocalId,
    recv: Operand,
    iface: MirTypeId,
    slot: u32,
    args: Seq<Operand>,
) -> bool {
    s matches Stmt::Assign(d, AssignValue::Call(Callee::Virtual(o, t, k), a)) && d == dst && o == recv && t
        == iface && k == slot && a@ == args
}

/// The statements that test whether what `next` returned into local `nx`
/// is null: a nullable reference is compared with null; a union's tag is
/// compared with `null_tag`, the tag of null in that union.
pub open spec fn next_null_test(next_mty: MirType, nx: int, null_tag: u16) -> Seq<Stmt> {
    match next_mty {
        MirType::Union(_) => seq![
            Stmt::Assign(local(nx + 1), AssignValue::UnionTag(Operand::Copy(local(nx)))),
            Stmt::Assign(
                local(nx + 2),
                AssignValue::Bin(
                    BinOp::Eq,
                    Operand::Copy(local(nx + 1)),
                    Operand::Const(MirConst::Int(null_tag as i64, PrimitiveType::Uint16)),
                ),
            ),
        ],
        _ => seq![
            Stmt::Assign(
                local(nx + 1),
                AssignValue::Bin(BinOp::Eq, Operand::Copy(local(nx)), Operand::Const(MirConst::Null)),
            ),
        ],
    }
}

/// The temporaries of that test.
pub open spec fn next_null_locals(next_mty: MirType, nx: int) -> Seq<MirLocal> {
    match next_mty {
        MirType::Union(_) => seq![
            MirLocal { id: local(nx + 1), name: None, ty: MirType::Primitive(PrimitiveType::Uint16) },
            MirLocal { id: local(nx + 2), name: None, ty: MirType::Primitive(PrimitiveType::Bool) },
        ],
        _ => seq![MirLocal { id: local(nx + 1), name: None, ty: MirType::Primitive(PrimitiveType::Bool) }],
    }
}

/// The blocks of a loop over an iterator: the header calls `next` and
/// leaves on null, the setup block binds the element, the body follows,
/// the exit follows the loop.
pub struct IteratorLoop {
    pub head: BlockId,
    pub setup: BlockId,
    pub body: BlockId,
    pub exit: BlockId,
}

/// The loop of `for x in iter` over an `Iterator<T>` up to its body, given
/// the lowered `iter` of MIR type `iter_mty`, the monomorphized iterator
/// interface `iface` with the slot of `next`, what `next` returns in MIR
/// (`next_mty`: a nullable reference or a union with null, where null has
/// tag `null_tag`) and the element's MIR type.
///
/// In the current block a new local `__it` takes the iterator, then the
/// block jumps to a new header. The header calls `next` through the
/// interface into a new temporary, tests it against null (see
/// `next_null_test`) and branches to a new exit block when null, to a new
/// setup block otherwise. The setup block reads the element into a new
/// local named `var_name` and jumps to a new body block. Statements go to
/// the body, the innermost scope binds `var_name` to the element, and the
/// loop's targets are the header (continue) and the exit (break).
pub fn open_iterator_loop(
    b: &mut FnBuilder,
    var_name: String,
    iter: Operand,
    iter_mty: MirType,
    iface: MirTypeId,
    slot: u32,
    next_mty: MirType,
    null_tag: u16,
    elem_mty: MirType,
) -> (r: IteratorLoop)
    requires
        old(b).wf(),
        old(b).has_block(old(b).current_block),
        old(b).locals@.len() + 5 < u32::MAX,
        old(b).blocks@.len() + 4 < u32::MAX,
        old(b).scope@.len() > 0,
        next_mty is NullableRef || next_mty is Union,
    ensures
        ({
            let c = old(b).current_block.0 as int;
            let n0 = old(b).blocks@.len() as int;
            let l0 = old(b).locals@.len() as int;
            let it = local(l0);
            let nx = l0 + 1;
            let x = l0 + 2 + next_null_locals(next_mty, nx).len();
            let flag = x - 1;
            &&& final(b).wf()
            &&& r == (IteratorLoop {
                head: BlockId(n0 as u32),
                setup: BlockId((n0 + 1) as u32),
                body: BlockId((n0 + 2) as u32),
                exit: BlockId((n0 + 3) as u32),
            })
            &&& final(b).locals@.len() == x + 1
            &&& final(b).locals@.take(l0) == old(b).locals@
            &&& final(b).locals@[l0].id == it && final(b).locals@[l0].ty == iter_mty
            &&& final(b).locals@[l0].name matches Some(nm) && nm@ == "__it"@
            &&& final(b).locals@[nx] == (MirLocal { id: local(nx), name: None, ty: next_mty })
            &&& final(b).locals@.subrange(nx + 1, x) == next_null_locals(next_mty, nx)
            &&& final(b).locals@[x].id == local(x) && final(b).locals@[x].ty == elem_mty
            &&& final(b).locals@[x].name matches Some(nm) && nm@ == var_name@
            &&& final(b).blocks@.len() == n0 + 4
            &&& forall|k: int| 0 <= k < n0 && k != c ==> #[trigger] final(b).blocks@[k] == old(b).blocks@[k]
            &&& final(b).blocks@[c].id == old(b).current().id
            &&& final(b).blocks@[c].stmts@ == old(b).current().stmts@.push(Stmt::Assign(it, AssignValue::Use(iter)))
            &&& final(b).blocks@[c].terminator == Terminator::Goto(r.head)
            &&& final(b).blocks@[n0].id == r.head
            &&& final(b).blocks@[n0].stmts@.len() == 1 + next_null_locals(next_mty, nx).len()
            &&& is_virtual_call(
                final(b).blocks@[n0].stmts@[0],
                local(nx),
                Operand::Copy(it),
                iface,
                slot,
                seq![Operand::Copy(it)],
            )
            &&& final(b).blocks@[n0].stmts@.drop_first() == next_null_test(next_mty, nx, null_tag)
            &&& final(b).blocks@[n0].terminator == Terminator::CondBr(Operand::Copy(local(flag)), r.exit, r.setup)
            &&& final(b).blocks@[n0 + 1].id == r.setup
            &&& final(b).blocks@[n0 + 1].stmts@ == seq![Stmt::Assign(local(x), element_read(next_mty, nx))]
            &&& final(b).blocks@[n0 + 1].terminator == Terminator::Goto(r.body)
            &&& is_fresh_block(final(b).blocks@[n0 + 2], r.body)
            &&& is_fresh_block(final(b).blocks@[n0 + 3], r.exit)
            &&& final(b).current_block == r.body
            &&& final(b).loop_stack@ == old(b).loop_stack@.push((r.head, r.exit))
            &&& final(b).scope@.len() == old(b).scope@.len()
            &&& final(b).scope@.drop_last() == old(b).scope@.drop_last()
            &&& scope_map(final(b).scope@.last()@) == scope_map(old(b).scope@.last()@).insert(var_name@, local(x))
            &&& final(b).params@ == old(b).params@
            &&& final(b).entry == old(b).entry
            &&& final(b).return_type == old(b).return_type
        }),
{
    let ghost c = b.current_block.0 as int;
    let ghost n0 = b.blocks@.len() as int;
    let ghost l0 = b.locals@.len() as int;
    let ghost blocks0 = b.blocks@;
    let it = b.new_local(Some("__it".to_owned()), iter_mty);
    b.push_stmt(Stmt::Assign(it, AssignValue::Use(iter)));
    let ghost blocks1 = b.blocks@;
    let head = b.new_block();
    let setup = b.new_block();
    let body = b.new_block();
    let exit = b.new_block();
    let ghost blocks2 = b.blocks@;
    proof {
        assert(blocks2.take(n0) =~= blocks1);
        assert forall|k: int| 0 <= k < n0 implies #[trigger] blocks2[k] == blocks1[k] by {
            assert(blocks2.take(n0)[k] == blocks2[k]);
        }
    }
    b.terminate(Terminator::Goto(head));
    let ghost blocks3 = b.blocks@;
    b.switch_to(head);
    let payload = match &next_mty {
        MirType::Union(u) => Some(*u),
        _ => None,
    };
    let nx = b.new_temp(next_mty);
    let args = vec![Operand::Copy(it)];
    let ghost av = args;
    assert(av@ =~= seq![Operand::Copy(it)]);
    b.push_stmt(Stmt::Assign(nx, AssignValue::Call(Callee::Virtual(Operand::Copy(it), iface, slot), args)));
    let is_null = match payload {
        None => b.emit(
            AssignValue::Bin(BinOp::Eq, Operand::Copy(nx), Operand::Const(MirConst::Null)),
            MirType::Primitive(PrimitiveType::Bool),
        ),
        Some(_) => {
            let tag = b.emit(AssignValue::UnionTag(Operand::Copy(nx)), MirType::Primitive(PrimitiveType::Uint16));
            b.emit(
                AssignValue::Bin(BinOp::Eq, tag, Operand::Const(MirConst::Int(null_tag as i64, PrimitiveType::Uint16))),
                MirType::Primitive(PrimitiveType::Bool),
            )
        },
    };
    let ghost head_stmts = b.current().stmts@;
    b.terminate(Terminator::CondBr(is_null, exit, setup));
    let ghost blocks4 = b.blocks@;
    b.switch_to(setup);
    let x = b.new_local(Some(var_name.clone()), elem_mty);
    let rv = match payload {
        Some(u) => AssignValue::UnionPayload(Operand::Copy(nx), u),
        None => AssignValue::Use(Operand::Copy(nx)),
    };
    b.push_stmt(Stmt::Assign(x, rv));
    b.terminate(Terminator::Goto(body));
    b.switch_to(body);
    b.bind(var_name, x);
    b.loop_stack.push((head, exit));
    proof {
        assert(head_stmts[0] == Stmt::Assign(nx, AssignValue::Call(Callee::Virtual(Operand::Copy(it), iface, slot), av)));
        assert(head_stmts.drop_first() =~= next_null_test(next_mty, l0 + 1, null_tag));
        assert forall|k: int| 0 <= k < n0 && k != c implies #[trigger] b.blocks@[k] == blocks0[k] by {
            assert(b.blocks@[k] == blocks4[k]);
            assert(blocks4[k] == blocks3[k]);
            assert(blocks3[k] == blocks2[k]);
        }
        assert(b.blocks@[c] == blocks3[c]);
        assert(b.blocks@[n0 + 1].stmts@ =~= seq![Stmt::Assign(local(x.0 as int), element_read(next_mty, l0 + 1))]);
        assert(b.locals@.take(l0) =~= old(b).locals@);
        assert(b.locals@.subrange(l0 + 2, x.0 as int) =~= next_null_locals(next_mty, l0 + 1));
    }
    IteratorLoop { head, setup, body, exit }
}

/// Closes a loop opened by `open_iterator_loop`, once its body is lowered:
/// the loop targets are dropped, the body's last block, if still open,
/// jumps back to the header, and statements go to the exit block.
pub fn close_iterator_loop(b: &mut FnBuilder, lp: &IteratorLoop)
    requires
        old(b).wf(),
        old(b).has_block(old(b).current_block),
        old(b).loop_stack@.len() > 0,
    ensures
        final(b).wf(),
        final(b).blocks@ == if old(b).current().terminator is Unreachable {
            old(b).blocks@.update(
                old(b).current_block.0 as int,
                MirBlock { terminator: Terminator::Goto(lp.head), ..old(b).current() },
            )
        } else {
            old(b).blocks@
        },
        final(b).locals@ == old(b).locals@,
        final(b).current_block == lp.exit,
        final(b).loop_stack@ == old(b).loop_stack@.drop_last(),
        final(b).scope@ == old(b).scope@,
        final(b).params@ == old(b).params@,
        final(b).entry == old(b).entry,
        final(b).return_type == old(b).return_type,
{
    let ghost ls0 = b.loop_stack@;
    b.loop_stack.pop();
    assert(b.loop_stack@ =~= ls0.drop_last());
    b.terminate_if_open(Terminator::Goto(lp.head));
    b.switch_to(lp.exit);
}

} // verus!
