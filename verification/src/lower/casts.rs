use vstd::prelude::*;

use crate::hir::{PrimitiveType, ResolvedType, TypeModel};
use crate::lower::builder::{is_fresh_block, FnBuilder};
use crate::mir::{
    AssignValue, BinOp, BlockId, LocalId, MirBlock, MirConst, MirLocal, MirType, MirTypeId, Operand, Stmt,
    Terminator, TrapReason,
};

verus! {

/// A copy of an operand.
pub fn copy_operand(op: &Operand) -> (r: Operand)
    ensures
        r == *op,
{
    match op {
        Operand::Copy(l) => Operand::Copy(*l),
        Operand::Move(l) => Operand::Move(*l),
        Operand::Const(c) => Operand::Const(
            match c {
                MirConst::Int(v, p) => MirConst::Int(*v, *p),
                MirConst::Float(v, p) => MirConst::Float(*v, *p),
                MirConst::Bool(v) => MirConst::Bool(*v),
                MirConst::Char(v) => MirConst::Char(*v),
                MirConst::String(s) => MirConst::String(s.clone()),
                MirConst::Null => MirConst::Null,
                MirConst::Fn(f) => MirConst::Fn(*f),
            },
        ),
    }
}

pub open spec fn local(n: int) -> LocalId {
    LocalId(n as u32)
}

pub open spec fn tag_ty() -> MirType {
    MirType::Primitive(PrimitiveType::Uint16)
}

pub open spec fn flag_ty() -> MirType {
    MirType::Primitive(PrimitiveType::Bool)
}

/// The type id a union payload is read as for a target of MIR type `t`:
/// the target's own id where it has one, else the union's.
pub open spec fn payload_type_id(t: MirType, union_id: MirTypeId) -> MirTypeId {
    match t {
        MirType::ManagedRef(m) => m,
        MirType::Union(m) => m,
        MirType::NullableRef(m) => m,
        _ => union_id,
    }
}

/// The comparison against null that decides `as`/`is` on a nullable
/// reference: equal for a `null` target, unequal for any other.
pub open spec fn null_test_op(target: TypeModel) -> BinOp {
    if target is Null {
        BinOp::Eq
    } else {
        BinOp::Neq
    }
}

/// The statements that test `value` against the target of a checked `as`,
/// where the result is local `l0` and the test's temporaries follow it:
/// on a union, its tag against the target's `tag`; on a nullable
/// reference, a comparison with null; on any other type, no test.
pub open spec fn as_test_stmts(scrut: MirType, value: Operand, target: TypeModel, tag: u16, l0: int) -> Seq<Stmt> {
    match scrut {
        MirType::Union(_) => seq![
            Stmt::Assign(local(l0 + 1), AssignValue::UnionTag(value)),
            Stmt::Assign(
                local(l0 + 2),
                AssignValue::Use(Operand::Const(MirConst::Int(tag as i64, PrimitiveType::Uint16))),
            ),
            Stmt::Assign(
                local(l0 + 3),
                AssignValue::Bin(BinOp::Eq, Operand::Copy(local(l0 + 1)), Operand::Copy(local(l0 + 2))),
            ),
        ],
        MirType::NullableRef(_) => seq![
            Stmt::Assign(
                local(l0 + 1),
                AssignValue::Bin(null_test_op(target), value, Operand::Const(MirConst::Null)),
            ),
        ],
        _ => seq![],
    }
}

/// The temporaries of that test, after the result local `l0`.
pub open spec fn as_test_locals(scrut: MirType, l0: int) -> Seq<MirLocal> {
    match scrut {
        MirType::Union(_) => seq![
            MirLocal { id: local(l0 + 1), name: None, ty: tag_ty() },
            MirLocal { id: local(l0 + 2), name: None, ty: tag_ty() },
            MirLocal { id: local(l0 + 3), name: None, ty: flag_ty() },
        ],
        MirType::NullableRef(_) => seq![MirLocal { id: local(l0 + 1), name: None, ty: flag_ty() }],
        _ => seq![],
    }
}

/// How the block holding the test ends: on the test's flag, to `ok` or to
/// `fail`; without a test, straight to `ok`.
pub open spec fn as_test_terminator(scrut: MirType, l0: int, ok: BlockId, fail: BlockId) -> Terminator {
    match scrut {
        MirType::Union(_) => Terminator::CondBr(Operand::Copy(local(l0 + 3)), ok, fail),
        MirType::NullableRef(_) => Terminator::CondBr(Operand::Copy(local(l0 + 1)), ok, fail),
        _ => Terminator::Goto(ok),
    }
}

/// What the `ok` block stores in the result `dst`: the payload of a union,
/// read as the target's type; otherwise the value itself.
pub open spec fn as_result_stmt(scrut: MirType, target_mty: MirType, value: Operand, dst: LocalId) -> Stmt {
    match scrut {
        MirType::Union(u) => Stmt::Assign(dst, AssignValue::UnionPayload(value, payload_type_id(target_mty, u))),
        _ => Stmt::Assign(dst, AssignValue::Use(value)),
    }
}

/// Lowers `e as target` when the value's type is not a primitive cast:
/// `value` is the lowered `e`, `scrut_mty` the MIR type of `e`, `target`
/// and `target_mty` the target after substitution and in MIR, `tag` the
/// target's tag within the union of `e` (read only when `e` is a union),
/// `result_mty` the MIR type of the result.
///
/// A new result local comes first. The current block then tests the value
/// (see `as_test_stmts`) and branches to a new `ok` block, or to a new
/// `fail` block that traps with `AsMismatch`; without a test it jumps to
/// `ok`. The `ok` block stores the result and jumps to a new `join` block,
/// where statements go from then on. The result is a copy of the result
/// local.
pub fn lower_as_checked(
    value: Operand,
    scrut_mty: &MirType,
    target: &ResolvedType,
    target_mty: &MirType,
    tag: u16,
    result_mty: MirType,
    b: &mut FnBuilder,
) -> (r: Operand)
    requires
        old(b).wf(),
        old(b).has_block(old(b).current_block),
        old(b).locals@.len() + 4 < u32::MAX,
        old(b).blocks@.len() + 3 < u32::MAX,
    ensures
        ({
            let c = old(b).current_block.0 as int;
            let n0 = old(b).blocks@.len() as int;
            let l0 = old(b).locals@.len() as int;
            let dst = local(l0);
            let ok = BlockId(n0 as u32);
            let fail = BlockId((n0 + 1) as u32);
            let join = BlockId((n0 + 2) as u32);
            &&& final(b).wf()
            &&& r == Operand::Copy(dst)
            &&& final(b).locals@ == old(b).locals@.push(MirLocal { id: dst, name: None, ty: result_mty })
                + as_test_locals(*scrut_mty, l0)
            &&& final(b).blocks@.len() == n0 + 3
            &&& forall|k: int| 0 <= k < n0 && k != c ==> #[trigger] final(b).blocks@[k] == old(b).blocks@[k]
            &&& final(b).blocks@[c].id == old(b).current().id
            &&& final(b).blocks@[c].stmts@ == old(b).current().stmts@ + as_test_stmts(
                *scrut_mty,
                value,
                target@,
                tag,
                l0,
            )
            &&& final(b).blocks@[c].terminator == as_test_terminator(*scrut_mty, l0, ok, fail)
            &&& final(b).blocks@[n0].id == ok
            &&& final(b).blocks@[n0].stmts@ == seq![as_result_stmt(*scrut_mty, *target_mty, value, dst)]
            &&& final(b).blocks@[n0].terminator == Terminator::Goto(join)
            &&& final(b).blocks@[n0 + 1].id == fail
            &&& final(b).blocks@[n0 + 1].stmts@.len() == 0
            &&& final(b).blocks@[n0 + 1].terminator == Terminator::Trap(TrapReason::AsMismatch)
            &&& is_fresh_block(final(b).blocks@[n0 + 2], join)
            &&& final(b).current_block == join
            &&& final(b).id == old(b).id
            &&& final(b).name@ == old(b).name@
            &&& final(b).abi == old(b).abi
            &&& final(b).params@ == old(b).params@
            &&& final(b).return_type == old(b).return_type
            &&& final(b).entry == old(b).entry
            &&& final(b).scope@ == old(b).scope@
            &&& final(b).loop_stack@ == old(b).loop_stack@
        }),
{
    let ghost c = b.current_block.0 as int;
    let ghost n0 = b.blocks@.len() as int;
    let ghost l0 = b.locals@.len() as int;
    let ghost cur0 = b.current();
    let ghost blocks0 = b.blocks@;
    let dst = b.new_temp(result_mty);
    let ok = b.new_block();
    let fail = b.new_block();
    let ghost blocks1 = b.blocks@;
    proof {
        assert(blocks1.drop_last().drop_last() == blocks0);
        assert forall|k: int| 0 <= k < n0 implies #[trigger] blocks1[k] == blocks0[k] by {
            assert(blocks1.drop_last()[k] == blocks1[k]);
        }
    }
    match scrut_mty {
        MirType::Union(union_id) => {
            let tag_local = b.new_temp(MirType::Primitive(PrimitiveType::Uint16));
            b.push_stmt(Stmt::Assign(tag_local, AssignValue::UnionTag(copy_operand(&value))));
            let target_const = b.new_temp(MirType::Primitive(PrimitiveType::Uint16));
            b.push_stmt(
                Stmt::Assign(
                    target_const,
                    AssignValue::Use(Operand::Const(MirConst::Int(tag as i64, PrimitiveType::Uint16))),
                ),
            );
            let hit = b.new_temp(MirType::Primitive(PrimitiveType::Bool));
            b.push_stmt(
                Stmt::Assign(
                    hit,
                    AssignValue::Bin(BinOp::Eq, Operand::Copy(tag_local), Operand::Copy(target_const)),
                ),
            );
            proof {
                assert(b.current().stmts@ =~= cur0.stmts@ + as_test_stmts(*scrut_mty, value, target@, tag, l0));
            }
            b.terminate(Terminator::CondBr(Operand::Copy(hit), ok, fail));
            b.switch_to(ok);
            let target_mid = match target_mty {
                MirType::ManagedRef(m) => *m,
                MirType::Union(m) => *m,
                MirType::NullableRef(m) => *m,
                _ => *union_id,
            };
            b.push_stmt(Stmt::Assign(dst, AssignValue::UnionPayload(value, target_mid)));
        },
        MirType::NullableRef(_) => {
            let hit = b.new_temp(MirType::Primitive(PrimitiveType::Bool));
            let op = match target {
                ResolvedType::Null => BinOp::Eq,
                _ => BinOp::Neq,
            };
            b.push_stmt(
                Stmt::Assign(hit, AssignValue::Bin(op, copy_operand(&value), Operand::Const(MirConst::Null))),
            );
            proof {
                assert(b.current().stmts@ =~= cur0.stmts@ + as_test_stmts(*scrut_mty, value, target@, tag, l0));
            }
            b.terminate(Terminator::CondBr(Operand::Copy(hit), ok, fail));
            b.switch_to(ok);
            b.push_stmt(Stmt::Assign(dst, AssignValue::Use(value)));
        },
        _ => {
            proof {
                assert(b.current().stmts@ =~= cur0.stmts@ + as_test_stmts(*scrut_mty, value, target@, tag, l0));
            }
            b.terminate(Terminator::Goto(ok));
            b.switch_to(ok);
            b.push_stmt(Stmt::Assign(dst, AssignValue::Use(value)));
        },
    }
    proof {
        assert(b.blocks@.len() == n0 + 2);
        assert(b.blocks@[c].stmts@ == cur0.stmts@ + as_test_stmts(*scrut_mty, value, target@, tag, l0));
        assert(b.blocks@[c].terminator == as_test_terminator(*scrut_mty, l0, ok, fail));
        assert(b.blocks@[n0].stmts@ =~= seq![as_result_stmt(*scrut_mty, *target_mty, value, dst)]);
        assert(forall|k: int| 0 <= k < n0 && k != c ==> #[trigger] b.blocks@[k] == blocks0[k]);
    }
    let ghost mid = b.blocks@;
    let join = b.new_block();
    proof {
        assert(b.blocks@.drop_last() == mid);
        assert forall|k: int| 0 <= k < n0 + 2 implies #[trigger] b.blocks@[k] == mid[k] by {
            assert(b.blocks@.drop_last()[k] == b.blocks@[k]);
        }
    }
    b.terminate(Terminator::Goto(join));
    b.switch_to(fail);
    b.terminate(Terminator::Trap(TrapReason::AsMismatch));
    b.switch_to(join);
    proof {
        assert(b.blocks@[n0] == MirBlock { terminator: Terminator::Goto(join), ..mid[n0] });
        assert(b.blocks@[n0 + 1] == MirBlock { terminator: Terminator::Trap(TrapReason::AsMismatch), ..mid[n0 + 1] });
        assert(b.blocks@[c] == mid[c]);
        assert forall|k: int| 0 <= k < n0 && k != c implies #[trigger] b.blocks@[k] == blocks0[k] by {
            assert(b.blocks@[k] == mid[k]);
        }

        assert(b.locals@ =~= old(b).locals@.push(MirLocal { id: dst, name: None, ty: result_mty })
            + as_test_locals(*scrut_mty, l0));
        assert(b.blocks@[c].stmts@ =~= cur0.stmts@ + as_test_stmts(*scrut_mty, value, target@, tag, l0));
        assert(b.blocks@[n0].stmts@ =~= seq![as_result_stmt(*scrut_mty, *target_mty, value, dst)]);
    }
    Operand::Copy(dst)
}

/// The statements of `e is target` into the result local `l0`: on a union,
/// its tag against the target's `tag`; on a nullable reference, a
/// comparison with null; on any other type the answer is known, whether
/// the two types are the same.
pub open spec fn is_test_stmts(
    scrut_mty: MirType,
    scrut: TypeModel,
    value: Operand,
    target: TypeModel,
    tag: u16,
    l0: int,
) -> Seq<Stmt> {
    match scrut_mty {
        MirType::Union(_) => seq![
            Stmt::Assign(local(l0 + 1), AssignValue::UnionTag(value)),
            Stmt::Assign(
                local(l0 + 2),
                AssignValue::Use(Operand::Const(MirConst::Int(tag as i64, PrimitiveType::Uint16))),
            ),
            Stmt::Assign(
                local(l0),
                AssignValue::Bin(BinOp::Eq, Operand::Copy(local(l0 + 1)), Operand::Copy(local(l0 + 2))),
            ),
        ],
        MirType::NullableRef(_) => seq![
            Stmt::Assign(local(l0), AssignValue::Bin(null_test_op(target), value, Operand::Const(MirConst::Null))),
        ],
        _ => seq![Stmt::Assign(local(l0), AssignValue::Use(Operand::Const(MirConst::Bool(scrut == target))))],
    }
}

/// The temporaries of `e is target` after the result local `l0`.
pub open spec fn is_test_locals(scrut_mty: MirType, l0: int) -> Seq<MirLocal> {
    match scrut_mty {
        MirType::Union(_) => seq![
            MirLocal { id: local(l0 + 1), name: None, ty: tag_ty() },
            MirLocal { id: local(l0 + 2), name: None, ty: tag_ty() },
        ],
        _ => seq![],
    }
}

/// Lowers `e is target` into the current block: `value` is the lowered
/// `e`, `scrut` its type after substitution and `scrut_mty` its MIR type,
/// `target` the target after substitution, `tag` the target's tag within
/// the union of `e` (read only when `e` is a union). A new boolean result
/// local comes first, then the statements of `is_test_stmts`; no block is
/// added and the result is a copy of the result local.
pub fn lower_is_checked(
    value: Operand,
    scrut: &ResolvedType,
    scrut_mty: &MirType,
    target: &ResolvedType,
    tag: u16,
    b: &mut FnBuilder,
) -> (r: Operand)
    requires
        old(b).wf(),
        old(b).has_block(old(b).current_block),
        old(b).locals@.len() + 3 < u32::MAX,
    ensures
        ({
            let l0 = old(b).locals@.len() as int;
            &&& final(b).wf()
            &&& r == Operand::Copy(local(l0))
            &&& final(b).locals@ == old(b).locals@.push(MirLocal { id: local(l0), name: None, ty: flag_ty() })
                + is_test_locals(*scrut_mty, l0)
            &&& final(b).blocks@.len() == old(b).blocks@.len()
            &&& final(b).current().id == old(b).current().id
            &&& final(b).current().stmts@ == old(b).current().stmts@ + is_test_stmts(
                *scrut_mty,
                scrut@,
                value,
                target@,
                tag,
                l0,
            )
            &&& final(b).current().terminator == old(b).current().terminator
            &&& forall|i: int|
                0 <= i < old(b).blocks@.len() && i != old(b).current_block.0 ==> #[trigger] final(b).blocks@[i]
                    == old(b).blocks@[i]
            &&& final(b).same_frame(old(b))
        }),
{
    let ghost cur0 = b.current();
    let ghost l0 = b.locals@.len() as int;
    let dst = b.new_temp(MirType::Primitive(PrimitiveType::Bool));
    match scrut_mty {
        MirType::Union(_) => {
            let tag_local = b.new_temp(MirType::Primitive(PrimitiveType::Uint16));
            b.push_stmt(Stmt::Assign(tag_local, AssignValue::UnionTag(value)));
            let target_const = b.new_temp(MirType::Primitive(PrimitiveType::Uint16));
            b.push_stmt(
                Stmt::Assign(
                    target_const,
                    AssignValue::Use(Operand::Const(MirConst::Int(tag as i64, PrimitiveType::Uint16))),
                ),
            );
            b.push_stmt(
                Stmt::Assign(
                    dst,
                    AssignValue::Bin(BinOp::Eq, Operand::Copy(tag_local), Operand::Copy(target_const)),
                ),
            );
        },
        MirType::NullableRef(_) => {
            let op = match target {
                ResolvedType::Null => BinOp::Eq,
                _ => BinOp::Neq,
            };
            b.push_stmt(Stmt::Assign(dst, AssignValue::Bin(op, value, Operand::Const(MirConst::Null))));
        },
        _ => {
            let same = *scrut == *target;
            b.push_stmt(Stmt::Assign(dst, AssignValue::Use(Operand::Const(MirConst::Bool(same)))));
        },
    }
    proof {
        assert(b.locals@ =~= old(b).locals@.push(MirLocal { id: local(l0), name: None, ty: flag_ty() })
            + is_test_locals(*scrut_mty, l0));
        assert(b.current().stmts@ =~= cur0.stmts@ + is_test_stmts(*scrut_mty, scrut@, value, target@, tag, l0));
    }
    Operand::Copy(dst)
}

} // verus!
