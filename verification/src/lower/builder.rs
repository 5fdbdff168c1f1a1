use vstd::prelude::*;

use crate::mir::{
    Abi, AssignValue, BlockId, LocalId, MirBlock, MirFnId, MirFunction, MirLocal, MirType, Operand, Stmt,
    Terminator,
};

verus! {

/// The bindings of one scope: a later binding of a name hides an earlier one.
pub open spec fn scope_map(s: Seq<(String, LocalId)>) -> Map<Seq<char>, LocalId>
    decreases s.len(),
{
    if s.len() == 0 {
        Map::empty()
    } else {
        scope_map(s.drop_last()).insert(s.last().0@, s.last().1)
    }
}

/// The local that `name` refers to in a stack of scopes: the innermost
/// scope that binds it decides.
pub open spec fn lookup_scopes(scopes: Seq<Vec<(String, LocalId)>>, name: Seq<char>) -> Option<LocalId>
    decreases scopes.len(),
{
    if scopes.len() == 0 {
        None
    } else {
        let m = scope_map(scopes.last()@);
        if m.contains_key(name) {
            Some(m[name])
        } else {
            lookup_scopes(scopes.drop_last(), name)
        }
    }
}

/// Bindings after index `j` that are not for `name` leave its binding as
/// the first `j` entries give it.
proof fn lemma_scope_map_tail(s: Seq<(String, LocalId)>, j: int, name: Seq<char>)
    requires
        0 <= j <= s.len(),
        forall|k: int| j <= k < s.len() ==> (#[trigger] s[k]).0@ != name,
    ensures
        scope_map(s).contains_key(name) == scope_map(s.subrange(0, j)).contains_key(name),
        scope_map(s).contains_key(name) ==> scope_map(s)[name] == scope_map(s.subrange(0, j))[name],
    decreases s.len(),
{
    if s.len() > j {
        assert(s.drop_last().subrange(0, j) =~= s.subrange(0, j));
        lemma_scope_map_tail(s.drop_last(), j, name);
    } else {
        assert(s.subrange(0, j) =~= s);
    }
}

/// A fresh basic block with id `id`: no statements and no terminator yet.
pub open spec fn is_fresh_block(b: MirBlock, id: BlockId) -> bool {
    &&& b.id == id
    &&& b.stmts@.len() == 0
    &&& b.terminator is Unreachable
}

/// Builds one MIR function: locals, blocks of the control-flow graph, the
/// block that statements go to now, the scopes of names and the loops
/// around the current point.
pub struct FnBuilder {
    pub id: MirFnId,
    pub name: String,
    pub abi: Abi,
    /// The locals that are parameters, in order.
    pub params: Vec<LocalId>,
    /// Every local of the function; `LocalId(i)` is `locals[i]`.
    pub locals: Vec<MirLocal>,
    /// Every block of the function; `BlockId(i)` is `blocks[i]`.
    pub blocks: Vec<MirBlock>,
    pub return_type: MirType,
    pub entry: BlockId,
    /// The block that statements are emitted to.
    pub current_block: BlockId,
    /// Stack of scopes, each a list of (name, local) bindings; pushed on
    /// block entry, popped on exit.
    pub scope: Vec<Vec<(String, LocalId)>>,
    /// For each enclosing loop: (continue target, break target).
    pub loop_stack: Vec<(BlockId, BlockId)>,
}

impl FnBuilder {
    /// Each local and each block sits at the index of its id.
    pub open spec fn wf(&self) -> bool {
        &&& forall|i: int| 0 <= i < self.locals@.len() ==> (#[trigger] self.locals@[i]).id.0 == i
        &&& forall|i: int| 0 <= i < self.blocks@.len() ==> (#[trigger] self.blocks@[i]).id.0 == i
    }

    /// The block with id `b` exists.
    pub open spec fn has_block(&self, b: BlockId) -> bool {
        b.0 < self.blocks@.len()
    }

    /// The block that statements are emitted to.
    pub open spec fn current(&self) -> MirBlock {
        self.blocks@[self.current_block.0 as int]
    }

    /// Everything but the locals and the blocks is as in `o`.
    pub open spec fn same_frame(&self, o: &FnBuilder) -> bool {
        &&& self.id == o.id
        &&& self.name@ == o.name@
        &&& self.abi == o.abi
        &&& self.params@ == o.params@
        &&& self.return_type == o.return_type
        &&& self.entry == o.entry
        &&& self.current_block == o.current_block
        &&& self.scope@ == o.scope@
        &&& self.loop_stack@ == o.loop_stack@
    }

    /// A builder with one scope and one open block, which is both the
    /// entry and the current block.
    pub fn new(id: MirFnId, name: String, abi: Abi, return_type: MirType) -> (r: Self)
        ensures
            r.wf(),
            r.id == id,
            r.name@ == name@,
            r.abi == abi,
            r.return_type == return_type,
            r.params@.len() == 0,
            r.locals@.len() == 0,
            r.blocks@.len() == 1,
            is_fresh_block(r.blocks@[0], BlockId(0)),
            r.entry == BlockId(0),
            r.current_block == BlockId(0),
            r.scope@.len() == 1,
            r.scope@[0]@.len() == 0,
            r.loop_stack@.len() == 0,
    {
        let mut root: Vec<Vec<(String, LocalId)>> = Vec::new();
        root.push(Vec::new());
        let mut b = FnBuilder {
            id,
            name,
            abi,
            return_type,
            params: Vec::new(),
            locals: Vec::new(),
            blocks: Vec::new(),
            entry: BlockId(0),
            current_block: BlockId(0),
            scope: root,
            loop_stack: Vec::new(),
        };
        let entry = b.new_block();
        b.entry = entry;
        b.current_block = entry;
        b
    }

    /// Adds a local with a fresh id.
    pub fn new_local(&mut self, name: Option<String>, ty: MirType) -> (r: LocalId)
        requires
            old(self).wf(),
            old(self).locals@.len() < u32::MAX,
        ensures
            final(self).wf(),
            r.0 == old(self).locals@.len(),
            final(self).locals@ == old(self).locals@.push(MirLocal { id: r, name, ty }),
            final(self).blocks@ == old(self).blocks@,
            final(self).same_frame(old(self)),
    {
        let id = LocalId(self.locals.len() as u32);
        self.locals.push(MirLocal { id, name, ty });
        id
    }

    /// Adds an unnamed local.
    pub fn new_temp(&mut self, ty: MirType) -> (r: LocalId)
        requires
            old(self).wf(),
            old(self).locals@.len() < u32::MAX,
        ensures
            final(self).wf(),
            r.0 == old(self).locals@.len(),
            final(self).locals@ == old(self).locals@.push(MirLocal { id: r, name: None, ty }),
            final(self).blocks@ == old(self).blocks@,
            final(self).same_frame(old(self)),
    {
        self.new_local(None, ty)
    }

    /// Adds an open block with a fresh id; the current block stays.
    pub fn new_block(&mut self) -> (r: BlockId)
        requires
            old(self).wf(),
            old(self).blocks@.len() < u32::MAX,
        ensures
            final(self).wf(),
            r.0 == old(self).blocks@.len(),
            final(self).blocks@.len() == old(self).blocks@.len() + 1,
            final(self).blocks@.drop_last() == old(self).blocks@,
            is_fresh_block(final(self).blocks@.last(), r),
            final(self).locals@ == old(self).locals@,
            final(self).same_frame(old(self)),
    {
        let id = BlockId(self.blocks.len() as u32);
        self.blocks.push(MirBlock { id, stmts: Vec::new(), terminator: Terminator::Unreachable });
        id
    }

    /// Emits to block `b` from now on.
    pub fn switch_to(&mut self, b: BlockId)
        requires
            old(self).wf(),
        ensures
            final(self).wf(),
            final(self).current_block == b,
            final(self).id == old(self).id,
            final(self).name@ == old(self).name@,
            final(self).abi == old(self).abi,
            final(self).locals@ == old(self).locals@,
            final(self).blocks@ == old(self).blocks@,
            final(self).scope@ == old(self).scope@,
            final(self).loop_stack@ == old(self).loop_stack@,
            final(self).params@ == old(self).params@,
            final(self).entry == old(self).entry,
            final(self).return_type == old(self).return_type,
    {
        self.current_block = b;
    }

    /// Appends a statement to the current block.
    pub fn push_stmt(&mut self, s: Stmt)
        requires
            old(self).wf(),
            old(self).has_block(old(self).current_block),
        ensures
            final(self).wf(),
            final(self).blocks@.len() == old(self).blocks@.len(),
            final(self).current().stmts@ == old(self).current().stmts@.push(s),
            final(self).current().terminator == old(self).current().terminator,
            final(self).current().id == old(self).current().id,
            forall|i: int|
                0 <= i < old(self).blocks@.len() && i != old(self).current_block.0 ==> #[trigger] final(self).blocks@[i]
                    == old(self).blocks@[i],
            final(self).locals@ == old(self).locals@,
            final(self).same_frame(old(self)),
    {
        let i = self.current_block.0 as usize;
        self.blocks[i].stmts.push(s);
    }

    /// Puts `tmp = rv` into the current block for a fresh unnamed local
    /// `tmp` of type `ty`, and gives `tmp` as an operand.
    pub fn emit(&mut self, rv: AssignValue, ty: MirType) -> (r: Operand)
        requires
            old(self).wf(),
            old(self).has_block(old(self).current_block),
            old(self).locals@.len() < u32::MAX,
        ensures
            final(self).wf(),
            r == Operand::Copy(LocalId(old(self).locals@.len() as u32)),
            final(self).locals@ == old(self).locals@.push(
                MirLocal { id: LocalId(old(self).locals@.len() as u32), name: None, ty },
            ),
            final(self).blocks@.len() == old(self).blocks@.len(),
            final(self).current().stmts@ == old(self).current().stmts@.push(
                Stmt::Assign(LocalId(old(self).locals@.len() as u32), rv),
            ),
            final(self).current().terminator == old(self).current().terminator,
            final(self).current().id == old(self).current().id,
            forall|i: int|
                0 <= i < old(self).blocks@.len() && i != old(self).current_block.0 ==> #[trigger] final(self).blocks@[i]
                    == old(self).blocks@[i],
            final(self).same_frame(old(self)),
    {
        let tmp = self.new_temp(ty);
        self.push_stmt(Stmt::Assign(tmp, rv));
        Operand::Copy(tmp)
    }

    /// Sets the terminator of the current block, replacing any earlier one.
    pub fn terminate(&mut self, t: Terminator)
        requires
            old(self).wf(),
            old(self).has_block(old(self).current_block),
        ensures
            final(self).wf(),
            final(self).blocks@ == old(self).blocks@.update(
                old(self).current_block.0 as int,
                MirBlock { terminator: t, ..old(self).current() },
            ),
            final(self).locals@ == old(self).locals@,
            final(self).same_frame(old(self)),
    {
        let i = self.current_block.0 as usize;
        self.blocks[i].terminator = t;
        proof {
            assert(self.blocks@ =~= old(self).blocks@.update(
                old(self).current_block.0 as int,
                MirBlock { terminator: t, ..old(self).current() },
            ));
        }
    }

    /// Whether the current block has no terminator yet.
    pub fn is_open(&self) -> (r: bool)
        requires
            self.has_block(self.current_block),
        ensures
            r == (self.current().terminator is Unreachable),
    {
        matches!(self.blocks[self.current_block.0 as usize].terminator, Terminator::Unreachable)
    }

    /// Sets the terminator only if the current block is still open.
    pub fn terminate_if_open(&mut self, t: Terminator)
        requires
            old(self).wf(),
            old(self).has_block(old(self).current_block),
        ensures
            final(self).wf(),
            final(self).blocks@ == if old(self).current().terminator is Unreachable {
                old(self).blocks@.update(
                    old(self).current_block.0 as int,
                    MirBlock { terminator: t, ..old(self).current() },
                )
            } else {
                old(self).blocks@
            },
            final(self).locals@ == old(self).locals@,
            final(self).same_frame(old(self)),
    {
        if self.is_open() {
            self.terminate(t);
        }
    }

    /// Opens a new, empty innermost scope.
    pub fn push_scope(&mut self)
        requires
            old(self).wf(),
        ensures
            final(self).wf(),
            final(self).scope@.len() == old(self).scope@.len() + 1,
            final(self).scope@.drop_last() == old(self).scope@,
            final(self).scope@.last()@.len() == 0,
            final(self).locals@ == old(self).locals@,
            final(self).blocks@ == old(self).blocks@,
            final(self).current_block == old(self).current_block,
            final(self).loop_stack@ == old(self).loop_stack@,
    {
        self.scope.push(Vec::new());
    }

    /// Closes the innermost scope, if there is one.
    pub fn pop_scope(&mut self)
        requires
            old(self).wf(),
        ensures
            final(self).wf(),
            final(self).scope@ == if old(self).scope@.len() > 0 {
                old(self).scope@.drop_last()
            } else {
                old(self).scope@
            },
            final(self).locals@ == old(self).locals@,
            final(self).blocks@ == old(self).blocks@,
            final(self).current_block == old(self).current_block,
            final(self).loop_stack@ == old(self).loop_stack@,
    {
        let _ = self.scope.pop();
    }

    /// Binds `name` to `local` in the innermost scope.
    pub fn bind(&mut self, name: String, local: LocalId)
        requires
            old(self).wf(),
            old(self).scope@.len() > 0,
        ensures
            final(self).wf(),
            final(self).scope@.len() == old(self).scope@.len(),
            final(self).scope@.drop_last() == old(self).scope@.drop_last(),
            scope_map(final(self).scope@.last()@) == scope_map(old(self).scope@.last()@).insert(
                name@,
                local,
            ),
            final(self).locals@ == old(self).locals@,
            final(self).blocks@ == old(self).blocks@,
            final(self).current_block == old(self).current_block,
            final(self).loop_stack@ == old(self).loop_stack@,
            final(self).id == old(self).id,
            final(self).name@ == old(self).name@,
            final(self).abi == old(self).abi,
            final(self).params@ == old(self).params@,
            final(self).return_type == old(self).return_type,
            final(self).entry == old(self).entry,
    {
        let ghost name_v = name@;
        let mut inner = self.scope.pop().unwrap();
        let ghost old_inner = inner@;
        inner.push((name, local));
        proof {
            assert(inner@.drop_last() == old_inner);
            assert(inner@.last().0@ == name_v);
        }
        self.scope.push(inner);
        proof {
            assert(self.scope@.drop_last() =~= old(self).scope@.drop_last());
        }
    }

    /// The local that `name` refers to: the innermost binding wins.
    pub fn lookup(&self, name: &str) -> (r: Option<LocalId>)
        ensures
            r == lookup_scopes(self.scope@, name@),
    {
        let key = name.to_owned();
        let mut i = self.scope.len();
        proof {
            assert(self.scope@.subrange(0, i as int) =~= self.scope@);
        }
        while i > 0
            invariant
                i <= self.scope@.len(),
                key@ == name@,
                lookup_scopes(self.scope@.subrange(0, i as int), name@) == lookup_scopes(
                    self.scope@,
                    name@,
                ),
            decreases i,
        {
            let s = &self.scope[i - 1];
            let ghost pre = self.scope@.subrange(0, i as int);
            proof {
                assert(pre.last() == *s);
                assert(pre.drop_last() =~= self.scope@.subrange(0, i - 1));
            }
            let mut j = s.len();
            while j > 0
                invariant
                    j <= s@.len(),
                    key@ == name@,
                    0 < i <= self.scope@.len(),
                    pre == self.scope@.subrange(0, i as int),
                    pre.last() == *s,
                    lookup_scopes(pre, name@) == lookup_scopes(self.scope@, name@),
                    forall|k: int| j <= k < s@.len() ==> (#[trigger] s@[k]).0@ != name@,
                decreases j,
            {
                if s[j - 1].0 == key {
                    proof {
                        let sub = s@.subrange(0, j as int);
                        assert(sub.drop_last() =~= s@.subrange(0, j - 1));
                        assert(sub.last() == s@[j - 1]);
                        assert(s@[j - 1].0@ == name@);
                        assert(scope_map(sub) == scope_map(sub.drop_last()).insert(name@, s@[j - 1].1));
                        lemma_scope_map_tail(s@, j as int, name@);
                        assert(scope_map(s@).contains_key(name@));
                        assert(scope_map(s@)[name@] == s@[j - 1].1);
                        assert(scope_map(pre.last()@) == scope_map(s@));
                        assert(lookup_scopes(pre, name@) == Some(s@[j - 1].1));
                    }
                    return Some(s[j - 1].1);
                }
                j = j - 1;
            }
            proof {
                lemma_scope_map_tail(s@, 0, name@);
                assert(s@.subrange(0, 0) =~= Seq::<(String, LocalId)>::empty());
            }
            i = i - 1;
        }
        proof {
            assert(self.scope@.subrange(0, 0) =~= Seq::<Vec<(String, LocalId)>>::empty());
        }
        None
    }

    /// The finished function.
    pub fn finish(self) -> (r: MirFunction)
        ensures
            r.id == self.id,
            r.name@ == self.name@,
            r.abi == self.abi,
            r.params@ == self.params@,
            r.locals@ == self.locals@,
            r.blocks@ == self.blocks@,
            r.entry == self.entry,
            r.return_type == self.return_type,
    {
        MirFunction {
            id: self.id,
            name: self.name,
            abi: self.abi,
            params: self.params,
            locals: self.locals,
            blocks: self.blocks,
            entry: self.entry,
            return_type: self.return_type,
        }
    }
}

} // verus!
