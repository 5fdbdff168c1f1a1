use vstd::prelude::*;

use crate::hir::PrimitiveType;
use crate::lower::builder::{is_fresh_block, FnBuilder};
use crate::mir::{AssignValue, BinOp, BlockId, LocalId, MirBlock, MirConst, MirLocal, MirType, Operand, Stmt, Terminator};

verus! {

/// The blocks and the index of a loop over positions `0..n`: the header
/// tests the index against the count, the body runs once per position, the
/// continue block advances the index, and the exit block follows the loop.
pub struct IndexLoop {
    pub index: LocalId,
    pub head: BlockId,
    pub body: BlockId,
    pub cont: BlockId,
    pub exit: BlockId,
}

pub open spec fn int64() -> MirType {
    MirType::Primitive(PrimitiveType::Int64)
}

/// Opens a loop over positions `0..n`, where local `n` holds the count (as
/// the loops over lists and over the keys of a map do): a new local
/// `__i = 0` in the current block, which then jumps to a new header; the
/// header sets a new flag to `__i >= n` and branches to the exit when it
/// holds, to the body otherwise. Statements then go to the body, and the
/// loop's continue and exit blocks are the innermost loop targets.
pub fn open_index_loop(b: &mut FnBuilder, n: LocalId) -> (r: IndexLoop)
    requires
        old(b).wf(),
        old(b).has_block(old(b).current_block),
        old(b).locals@.len() + 2 < u32::MAX,
        old(b).blocks@.len() + 4 < u32::MAX,
    ensures
        ({
            let c = old(b).current_block.0 as int;
            let n0 = old(b).blocks@.len();
            let l0 = old(b).locals@.len();
            let i = LocalId(l0 as u32);
            let done = LocalId((l0 + 1) as u32);
            &&& final(b).wf()
            &&& r == (IndexLoop {
                index: i,
                head: BlockId(n0 as u32),
                body: BlockId((n0 + 1) as u32),
                cont: BlockId((n0 + 2) as u32),
                exit: BlockId((n0 + 3) as u32),
            })
            &&& final(b).locals@.len() == l0 + 2
            &&& final(b).locals@.take(l0 as int) == old(b).locals@
            &&& final(b).locals@[l0 as int].id == i && final(b).locals@[l0 as int].ty == int64()
            &&& final(b).locals@[l0 as int].name matches Some(nm) && nm@ == "__i"@
            &&& final(b).locals@[l0 + 1int] == (MirLocal {
                id: done,
                name: None,
                ty: MirType::Primitive(PrimitiveType::Bool),
            })
            &&& final(b).blocks@.len() == n0 + 4
            &&& forall|k: int| 0 <= k < n0 && k != c ==> #[trigger] final(b).blocks@[k] == old(b).blocks@[k]
            &&& final(b).blocks@[c] == (MirBlock {
                stmts: final(b).blocks@[c].stmts,
                terminator: Terminator::Goto(r.head),
                ..old(b).current()
            })
            &&& final(b).blocks@[c].stmts@ == old(b).current().stmts@.push(
                Stmt::Assign(i, AssignValue::Use(Operand::Const(MirConst::Int(0, PrimitiveType::Int64)))),
            )
            &&& final(b).blocks@[n0 as int].id == r.head
            &&& final(b).blocks@[n0 as int].stmts@ == seq![
                Stmt::Assign(done, AssignValue::Bin(BinOp::Ge, Operand::Copy(i), Operand::Copy(n))),
            ]
            &&& final(b).blocks@[n0 as int].terminator == Terminator::CondBr(Operand::Copy(done), r.exit, r.body)
            &&& is_fresh_block(final(b).blocks@[n0 + 1int], r.body)
            &&& is_fresh_block(final(b).blocks@[n0 + 2int], r.cont)
            &&& is_fresh_block(final(b).blocks@[n0 + 3int], r.exit)
            &&& final(b).current_block == r.body
            &&& final(b).loop_stack@ == old(b).loop_stack@.push((r.cont, r.exit))
            &&& final(b).scope@ == old(b).scope@
            &&& final(b).params@ == old(b).params@
            &&& final(b).entry == old(b).entry
            &&& final(b).return_type == old(b).return_type
        }),
{
    let ghost c = b.current_block.0 as int;
    let ghost n0 = b.blocks@.len();
    let ghost cur0 = b.current();
    let ghost blocks0 = b.blocks@;
    let i = b.new_local(Some("__i".to_owned()), MirType::Primitive(PrimitiveType::Int64));
    b.push_stmt(Stmt::Assign(i, AssignValue::Use(Operand::Const(MirConst::Int(0, PrimitiveType::Int64)))));
    let ghost blocks1 = b.blocks@;
    let head = b.new_block();
    let body = b.new_block();
    let cont = b.new_block();
    let exit = b.new_block();
    let ghost blocks2 = b.blocks@;
    proof {
        assert(blocks2.len() == n0 + 4);
        assert(blocks2.take(n0 as int) =~= blocks1);
    }
    b.terminate(Terminator::Goto(head));
    let ghost blocks3 = b.blocks@;
    proof {
        assert forall|k: int| 0 <= k < n0 && k != c implies #[trigger] blocks3[k] == blocks0[k] by {
            assert(blocks3[k] == blocks2[k]);
            assert(blocks2[k] == blocks2.take(n0 as int)[k]);
            assert(blocks1[k] == blocks0[k]);
        }
    }
    b.switch_to(head);
    let done = b.emit(
        AssignValue::Bin(BinOp::Ge, Operand::Copy(i), Operand::Copy(n)),
        MirType::Primitive(PrimitiveType::Bool),
    );
    let ghost blocks4 = b.blocks@;
    proof {
        assert forall|k: int| 0 <= k < n0 && k != c implies #[trigger] blocks4[k] == blocks0[k] by {
            assert(blocks4[k] == blocks3[k]);
        }
    }
    b.terminate(Terminator::CondBr(done, exit, body));
    proof {
        assert forall|k: int| 0 <= k < n0 && k != c implies #[trigger] b.blocks@[k] == blocks0[k] by {
            assert(b.blocks@[k] == blocks4[k]);
        }
    }
    b.switch_to(body);
    b.loop_stack.push((cont, exit));
    proof {
        assert(b.blocks@[n0 as int].stmts@ =~= seq![
            Stmt::Assign(LocalId((old(b).locals@.len() + 1) as u32), AssignValue::Bin(BinOp::Ge, Operand::Copy(i), Operand::Copy(n))),
        ]);
        assert(b.locals@.take(old(b).locals@.len() as int) =~= old(b).locals@);
        assert(b.blocks@.len() == n0 + 4);
        assert(forall|k: int| 0 <= k < n0 && k != c ==> #[trigger] b.blocks@[k] == blocks0[k]);
        assert(b.blocks@[c].terminator == Terminator::Goto(head));
        assert(b.blocks@[c].id == cur0.id);
        assert(b.blocks@[c].stmts@ == cur0.stmts@.push(
            Stmt::Assign(i, AssignValue::Use(Operand::Const(MirConst::Int(0, PrimitiveType::Int64)))),
        ));
        assert(b.blocks@[n0 as int].id == head);
        assert(b.blocks@[n0 as int].terminator == Terminator::CondBr(done, exit, body));
        assert(is_fresh_block(b.blocks@[n0 + 1int], body));
        assert(is_fresh_block(b.blocks@[n0 + 3int], exit));
        assert(b.locals@[old(b).locals@.len() as int].name matches Some(nm) && nm@ == "__i"@);
    }
    IndexLoop { index: i, head, body, cont, exit }
}

/// Closes a loop opened by `open_index_loop`, once its body is lowered:
/// the loop targets are dropped; if the body's last block is still open it
/// jumps to the continue block; the continue block adds 1 to the index and
/// jumps back to the header; statements then go to the exit block.
pub fn close_index_loop(b: &mut FnBuilder, lp: &IndexLoop)
    requires
        old(b).wf(),
        old(b).has_block(old(b).current_block),
        old(b).loop_stack@.len() > 0,
        lp.cont.0 < old(b).blocks@.len(),
        old(b).locals@.len() < u32::MAX,
    ensures
        ({
            let c = old(b).current_block.0 as int;
            let after_body = if old(b).current().terminator is Unreachable {
                old(b).blocks@.update(c, MirBlock { terminator: Terminator::Goto(lp.cont), ..old(b).current() })
            } else {
                old(b).blocks@
            };
            let l0 = old(b).locals@.len();
            let next = LocalId(l0 as u32);
            let k = lp.cont.0 as int;
            &&& final(b).wf()
            &&& final(b).locals@ == old(b).locals@.push(MirLocal { id: next, name: None, ty: int64() })
            &&& final(b).blocks@ == after_body.update(
                k,
                MirBlock {
                    stmts: final(b).blocks@[k].stmts,
                    terminator: Terminator::Goto(lp.head),
                    ..after_body[k]
                },
            )
            &&& final(b).blocks@[k].stmts@ == after_body[k].stmts@.push(
                Stmt::Assign(
                    next,
                    AssignValue::Bin(
                        BinOp::Add,
                        Operand::Copy(lp.index),
                        Operand::Const(MirConst::Int(1, PrimitiveType::Int64)),
                    ),
                ),
            ).push(Stmt::Assign(lp.index, AssignValue::Use(Operand::Copy(next))))
            &&& final(b).current_block == lp.exit
            &&& final(b).loop_stack@ == old(b).loop_stack@.drop_last()
            &&& final(b).scope@ == old(b).scope@
            &&& final(b).params@ == old(b).params@
            &&& final(b).entry == old(b).entry
            &&& final(b).return_type == old(b).return_type
        }),
{
    let ghost ls0 = b.loop_stack@;
    b.loop_stack.pop();
    assert(b.loop_stack@ =~= ls0.drop_last());
    b.terminate_if_open(Terminator::Goto(lp.cont));
    let ghost after_body = b.blocks@;
    let ghost k = lp.cont.0 as int;
    b.switch_to(lp.cont);
    let next = b.emit(
        AssignValue::Bin(BinOp::Add, Operand::Copy(lp.index), Operand::Const(MirConst::Int(1, PrimitiveType::Int64))),
        MirType::Primitive(PrimitiveType::Int64),
    );
    let ghost e1 = b.blocks@;
    b.push_stmt(Stmt::Assign(lp.index, AssignValue::Use(next)));
    let ghost e2 = b.blocks@;
    b.terminate(Terminator::Goto(lp.head));
    b.switch_to(lp.exit);
    proof {
        assert(forall|j: int| 0 <= j < after_body.len() && j != k ==> #[trigger] e2[j] == after_body[j]) by {
            assert forall|j: int| 0 <= j < after_body.len() && j != k implies #[trigger] e2[j] == after_body[j] by {
                assert(e2[j] == e1[j]);
            }
        }
        assert(b.blocks@[k].stmts == e2[k].stmts);
        assert(b.blocks@[k].id == after_body[k].id);
        assert(b.loop_stack@ == old(b).loop_stack@.drop_last());
        assert(b.blocks@ =~= after_body.update(
            k,
            MirBlock { stmts: b.blocks@[k].stmts, terminator: Terminator::Goto(lp.head), ..after_body[k] },
        ));
    }
}


/// The blocks of a `while` loop: the header evaluates the condition, the
/// body runs while it holds, the exit follows the loop.
pub struct WhileLoop {
    pub head: BlockId,
    pub body: BlockId,
    pub exit: BlockId,
}

/// Opens a `while` loop: three new blocks; the current block jumps to the
/// header, where statements go next (the condition is lowered there).
pub fn open_while_loop(b: &mut FnBuilder) -> (r: WhileLoop)
    requires
        old(b).wf(),
        old(b).has_block(old(b).current_block),
        old(b).blocks@.len() + 3 < u32::MAX,
    ensures
        ({
            let c = old(b).current_block.0 as int;
            let n0 = old(b).blocks@.len();
            &&& final(b).wf()
            &&& r == (WhileLoop {
                head: BlockId(n0 as u32),
                body: BlockId((n0 + 1) as u32),
                exit: BlockId((n0 + 2) as u32),
            })
            &&& final(b).locals@ == old(b).locals@
            &&& final(b).blocks@.len() == n0 + 3
            &&& final(b).blocks@.take(n0 as int) == old(b).blocks@.update(
                c,
                MirBlock { terminator: Terminator::Goto(r.head), ..old(b).current() },
            )
            &&& is_fresh_block(final(b).blocks@[n0 as int], r.head)
            &&& is_fresh_block(final(b).blocks@[n0 + 1int], r.body)
            &&& is_fresh_block(final(b).blocks@[n0 + 2int], r.exit)
            &&& final(b).current_block == r.head
            &&& final(b).loop_stack@ == old(b).loop_stack@
            &&& final(b).scope@ == old(b).scope@
            &&& final(b).params@ == old(b).params@
            &&& final(b).entry == old(b).entry
            &&& final(b).return_type == old(b).return_type
        }),
{
    let ghost n0 = b.blocks@.len();
    let ghost c = b.current_block.0 as int;
    let ghost cur0 = b.current();
    let head = b.new_block();
    let ghost b1 = b.blocks@;
    let body = b.new_block();
    let ghost b2 = b.blocks@;
    let exit = b.new_block();
    let ghost b3 = b.blocks@;
    proof {
        assert(b3.take(n0 as int) =~= old(b).blocks@) by {
            assert(b1.drop_last() == old(b).blocks@);
            assert(b2.drop_last() == b1);
            assert(b3.drop_last() == b2);
        }
        assert(b3[n0 as int] == b1[n0 as int]) by {
            assert(b3[n0 as int] == b2[n0 as int]);
        }
        assert(b3[n0 + 1int] == b2[n0 + 1int]);
        assert(b3[c] == cur0);
    }
    b.terminate(Terminator::Goto(head));
    b.switch_to(head);
    proof {
        assert(b.blocks@.take(n0 as int) =~= old(b).blocks@.update(
            c,
            MirBlock { terminator: Terminator::Goto(head), ..old(b).current() },
        ));
    }
    WhileLoop { head, body, exit }
}

/// Ends the header of a `while` loop once its condition `cond` is lowered:
/// the header's last block branches to the body when `cond` holds, to the
/// exit otherwise; statements then go to the body, and the header and the
/// exit are the innermost loop targets (continue, break).
pub fn branch_while_loop(b: &mut FnBuilder, lp: &WhileLoop, cond: Operand)
    requires
        old(b).wf(),
        old(b).has_block(old(b).current_block),
    ensures
        final(b).wf(),
        final(b).blocks@ == old(b).blocks@.update(
            old(b).current_block.0 as int,
            MirBlock { terminator: Terminator::CondBr(cond, lp.body, lp.exit), ..old(b).current() },
        ),
        final(b).locals@ == old(b).locals@,
        final(b).current_block == lp.body,
        final(b).loop_stack@ == old(b).loop_stack@.push((lp.head, lp.exit)),
        final(b).scope@ == old(b).scope@,
        final(b).params@ == old(b).params@,
        final(b).entry == old(b).entry,
        final(b).return_type == old(b).return_type,
{
    b.terminate(Terminator::CondBr(cond, lp.body, lp.exit));
    b.switch_to(lp.body);
    b.loop_stack.push((lp.head, lp.exit));
}

/// Closes a `while` loop once its body is lowered: the loop targets are
/// dropped; if the body's last block is still open it jumps back to the
/// header; statements then go to the exit.
pub fn close_while_loop(b: &mut FnBuilder, lp: &WhileLoop)
    requires
        old(b).wf(),
        old(b).has_block(old(b).current_block),
        old(b).loop_stack@.len() > 0,
    ensures
        final(b).wf(),
        final(b).blocks@ == if old(b).current().terminator is Unreachable {
            old(b).blocks@.update(
                old(b).current_block.0 as int,
                MirBlock { terminator: Terminator::Goto(lp.head), ..old(b).current() },
            )
        } else {
            old(b).blocks@
        },
        final(b).locals@ == old(b).locals@,
        final(b).current_block == lp.exit,
        final(b).loop_stack@ == old(b).loop_stack@.drop_last(),
        final(b).scope@ == old(b).scope@,
        final(b).params@ == old(b).params@,
        final(b).entry == old(b).entry,
        final(b).return_type == old(b).return_type,
{
    let ghost ls0 = b.loop_stack@;
    b.loop_stack.pop();
    assert(b.loop_stack@ =~= ls0.drop_last());
    b.terminate_if_open(Terminator::Goto(lp.head));
    b.switch_to(lp.exit);
}

} // verus!
