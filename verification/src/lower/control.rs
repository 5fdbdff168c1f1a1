use vstd::prelude::*;

use crate::lower::builder::{is_fresh_block, scope_map, FnBuilder};
use crate::lower::casts::local;
use crate::mir::{AssignValue, BlockId, LocalId, MirBlock, MirLocal, MirType, Operand, Stmt, Terminator};

verus! {

/// Ends the current block with `t` and continues in a new block, which
/// nothing jumps to: statements after a `return`, `break` or `continue`
/// go there.
fn leave_block(b: &mut FnBuilder, t: Terminator)
    requires
        old(b).wf(),
        old(b).has_block(old(b).current_block),
        old(b).blocks@.len() < u32::MAX,
    ensures
        final(b).wf(),
        final(b).blocks@ == old(b).blocks@.update(
            old(b).current_block.0 as int,
            MirBlock { terminator: t, ..old(b).current() },
        ).push(final(b).blocks@.last()),
        is_fresh_block(final(b).blocks@.last(), BlockId(old(b).blocks@.len() as u32)),
        final(b).current_block == BlockId(old(b).blocks@.len() as u32),
        final(b).locals@ == old(b).locals@,
        final(b).loop_stack@ == old(b).loop_stack@,
        final(b).scope@ == old(b).scope@,
        final(b).params@ == old(b).params@,
        final(b).entry == old(b).entry,
        final(b).return_type == old(b).return_type,
{
    b.terminate(t);
    let ghost before = b.blocks@;
    let dead = b.new_block();
    b.switch_to(dead);
    proof {
        assert(b.blocks@ =~= before.push(b.blocks@.last()));
    }
}

/// `return e;` with `e` lowered (and converted to the declared return type)
/// into `value`, or `return;`: the current block returns, and statements
/// after it go to a new block.
pub fn lower_return(b: &mut FnBuilder, value: Option<Operand>)
    requires
        old(b).wf(),
        old(b).has_block(old(b).current_block),
        old(b).blocks@.len() < u32::MAX,
    ensures
        final(b).wf(),
        final(b).blocks@ == old(b).blocks@.update(
            old(b).current_block.0 as int,
            MirBlock { terminator: Terminator::Return(value), ..old(b).current() },
        ).push(final(b).blocks@.last()),
        is_fresh_block(final(b).blocks@.last(), BlockId(old(b).blocks@.len() as u32)),
        final(b).current_block == BlockId(old(b).blocks@.len() as u32),
        final(b).locals@ == old(b).locals@,
        final(b).loop_stack@ == old(b).loop_stack@,
        final(b).scope@ == old(b).scope@,
        final(b).params@ == old(b).params@,
        final(b).entry == old(b).entry,
        final(b).return_type == old(b).return_type,
{
    leave_block(b, Terminator::Return(value));
}

/// `break;` inside a loop: the current block jumps to the innermost loop's
/// exit, and statements after it go to a new block.
pub fn lower_break(b: &mut FnBuilder)
    requires
        old(b).wf(),
        old(b).has_block(old(b).current_block),
        old(b).blocks@.len() < u32::MAX,
        old(b).loop_stack@.len() > 0,
    ensures
        final(b).wf(),
        final(b).blocks@ == old(b).blocks@.update(
            old(b).current_block.0 as int,
            MirBlock { terminator: Terminator::Goto(old(b).loop_stack@.last().1), ..old(b).current() },
        ).push(final(b).blocks@.last()),
        is_fresh_block(final(b).blocks@.last(), BlockId(old(b).blocks@.len() as u32)),
        final(b).current_block == BlockId(old(b).blocks@.len() as u32),
        final(b).locals@ == old(b).locals@,
        final(b).loop_stack@ == old(b).loop_stack@,
        final(b).scope@ == old(b).scope@,
        final(b).params@ == old(b).params@,
        final(b).entry == old(b).entry,
        final(b).return_type == old(b).return_type,
{
    let target = b.loop_stack[b.loop_stack.len() - 1].1;
    leave_block(b, Terminator::Goto(target));
}

/// `continue;` inside a loop: the current block jumps to the innermost
/// loop's continue target, and statements after it go to a new block.
pub fn lower_continue(b: &mut FnBuilder)
    requires
        old(b).wf(),
        old(b).has_block(old(b).current_block),
        old(b).blocks@.len() < u32::MAX,
        old(b).loop_stack@.len() > 0,
    ensures
        final(b).wf(),
        final(b).blocks@ == old(b).blocks@.update(
            old(b).current_block.0 as int,
            MirBlock { terminator: Terminator::Goto(old(b).loop_stack@.last().0), ..old(b).current() },
        ).push(final(b).blocks@.last()),
        is_fresh_block(final(b).blocks@.last(), BlockId(old(b).blocks@.len() as u32)),
        final(b).current_block == BlockId(old(b).blocks@.len() as u32),
        final(b).locals@ == old(b).locals@,
        final(b).loop_stack@ == old(b).loop_stack@,
        final(b).scope@ == old(b).scope@,
        final(b).params@ == old(b).params@,
        final(b).entry == old(b).entry,
        final(b).return_type == old(b).return_type,
{
    let target = b.loop_stack[b.loop_stack.len() - 1].0;
    leave_block(b, Terminator::Goto(target));
}

/// `var name: T = e;` with `T` lowered to `ty` and `e`, if any, lowered
/// (and converted to `T`) into `init`: a new local named `name` of type
/// `ty`, which the current block sets to `init` when there is one, and
/// which the innermost scope then binds `name` to. The result is the local.
pub fn lower_var_decl(b: &mut FnBuilder, name: String, ty: MirType, init: Option<Operand>) -> (r: LocalId)
    requires
        old(b).wf(),
        old(b).has_block(old(b).current_block),
        old(b).locals@.len() < u32::MAX,
        old(b).scope@.len() > 0,
    ensures
        final(b).wf(),
        r == local(old(b).locals@.len() as int),
        final(b).locals@ == old(b).locals@.push(MirLocal { id: r, name: Some(name), ty }),
        final(b).blocks@.len() == old(b).blocks@.len(),
        final(b).current().id == old(b).current().id,
        final(b).current().terminator == old(b).current().terminator,
        final(b).current().stmts@ == match init {
            Some(op) => old(b).current().stmts@.push(Stmt::Assign(r, AssignValue::Use(op))),
            None => old(b).current().stmts@,
        },
        forall|i: int|
            0 <= i < old(b).blocks@.len() && i != old(b).current_block.0 ==> #[trigger] final(b).blocks@[i]
                == old(b).blocks@[i],
        final(b).current_block == old(b).current_block,
        final(b).scope@.len() == old(b).scope@.len(),
        final(b).scope@.drop_last() == old(b).scope@.drop_last(),
        scope_map(final(b).scope@.last()@) == scope_map(old(b).scope@.last()@).insert(name@, r),
        final(b).loop_stack@ == old(b).loop_stack@,
        final(b).params@ == old(b).params@,
        final(b).entry == old(b).entry,
        final(b).return_type == old(b).return_type,
{
    let ghost name0 = name;
    let id = b.new_local(Some(name.clone()), ty);
    match init {
        Some(op) => {
            b.push_stmt(Stmt::Assign(id, AssignValue::Use(op)));
        },
        None => {},
    }
    b.bind(name, id);
    id
}

/// The blocks and the result of an `if` expression: the two arms, the
/// block after them, and the local that holds the value of the arm taken.
pub struct IfShape {
    pub then_block: BlockId,
    pub else_block: BlockId,
    pub join: BlockId,
    pub result: LocalId,
}

/// Opens `if cond { .. } else { .. }` with `cond` lowered: three new
/// blocks (then, else, join), a new result local of type `result_ty`; the
/// current block branches on `cond` to the two arms, and statements go to
/// the `then` arm.
pub fn open_if(b: &mut FnBuilder, cond: Operand, result_ty: MirType) -> (r: IfShape)
    requires
        old(b).wf(),
        old(b).has_block(old(b).current_block),
        old(b).locals@.len() < u32::MAX,
        old(b).blocks@.len() + 3 < u32::MAX,
    ensures
        ({
            let c = old(b).current_block.0 as int;
            let n0 = old(b).blocks@.len() as int;
            &&& final(b).wf()
            &&& r == (IfShape {
                then_block: BlockId(n0 as u32),
                else_block: BlockId((n0 + 1) as u32),
                join: BlockId((n0 + 2) as u32),
                result: local(old(b).locals@.len() as int),
            })
            &&& final(b).locals@ == old(b).locals@.push(MirLocal { id: r.result, name: None, ty: result_ty })
            &&& final(b).blocks@.len() == n0 + 3
            &&& final(b).blocks@.take(n0) == old(b).blocks@.update(
                c,
                MirBlock { terminator: Terminator::CondBr(cond, r.then_block, r.else_block), ..old(b).current() },
            )
            &&& is_fresh_block(final(b).blocks@[n0], r.then_block)
            &&& is_fresh_block(final(b).blocks@[n0 + 1], r.else_block)
            &&& is_fresh_block(final(b).blocks@[n0 + 2], r.join)
            &&& final(b).current_block == r.then_block
            &&& final(b).loop_stack@ == old(b).loop_stack@
            &&& final(b).scope@ == old(b).scope@
            &&& final(b).params@ == old(b).params@
            &&& final(b).entry == old(b).entry
            &&& final(b).return_type == old(b).return_type
        }),
{
    let ghost n0 = b.blocks@.len() as int;
    let ghost c = b.current_block.0 as int;
    let ghost cur0 = b.current();
    let then_block = b.new_block();
    let ghost b1 = b.blocks@;
    let else_block = b.new_block();
    let ghost b2 = b.blocks@;
    let join = b.new_block();
    let ghost b3 = b.blocks@;
    let result = b.new_temp(result_ty);
    proof {
        assert(b3.take(n0) =~= old(b).blocks@) by {
            assert(b1.drop_last() == old(b).blocks@);
            assert(b2.drop_last() == b1);
            assert(b3.drop_last() == b2);
        }
        assert(b3[n0] == b1[n0]) by {
            assert(b3[n0] == b2[n0]);
        }
        assert(b3[n0 + 1] == b2[n0 + 1]);
        assert(b3[c] == cur0);
    }
    b.terminate(Terminator::CondBr(cond, then_block, else_block));
    b.switch_to(then_block);
    proof {
        assert(b.blocks@.take(n0) =~= old(b).blocks@.update(
            c,
            MirBlock { terminator: Terminator::CondBr(cond, then_block, else_block), ..old(b).current() },
        ));
    }
    IfShape { then_block, else_block, join, result }
}

/// Ends the arm of an `if` that was just lowered, whose value (converted
/// to the `if`'s type) is `value`, if it has one: unless the arm's last
/// block already ended (by `return`, `break` or `continue`), it stores the
/// value in the result and jumps to the join. Statements then go to
/// `next`: the `else` arm after the `then` arm, the join after the `else`
/// arm.
pub fn close_if_arm(b: &mut FnBuilder, shape: &IfShape, value: Option<Operand>, next: BlockId)
    requires
        old(b).wf(),
        old(b).has_block(old(b).current_block),
    ensures
        ({
            let c = old(b).current_block.0 as int;
            let cur = old(b).current();
            &&& final(b).wf()
            &&& final(b).blocks@ == if cur.terminator is Unreachable {
                old(b).blocks@.update(c, MirBlock { terminator: Terminator::Goto(shape.join), ..final(b).blocks@[c] })
            } else {
                old(b).blocks@
            }
            &&& cur.terminator is Unreachable ==> final(b).blocks@[c].stmts@ == match value {
                Some(op) => cur.stmts@.push(Stmt::Assign(shape.result, AssignValue::Use(op))),
                None => cur.stmts@,
            }
            &&& final(b).locals@ == old(b).locals@
            &&& final(b).current_block == next
            &&& final(b).loop_stack@ == old(b).loop_stack@
            &&& final(b).scope@ == old(b).scope@
            &&& final(b).params@ == old(b).params@
            &&& final(b).entry == old(b).entry
            &&& final(b).return_type == old(b).return_type
        }),
{
    let ghost c = b.current_block.0 as int;
    if b.is_open() {
        match value {
            Some(op) => {
                b.push_stmt(Stmt::Assign(shape.result, AssignValue::Use(op)));
            },
            None => {},
        }
        let ghost mid = b.blocks@;
        b.terminate(Terminator::Goto(shape.join));
        proof {
            assert(b.blocks@ =~= old(b).blocks@.update(
                c,
                MirBlock { terminator: Terminator::Goto(shape.join), ..b.blocks@[c] },
            ));
        }
    }
    b.switch_to(next);
}

} // verus!
