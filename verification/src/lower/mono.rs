use vstd::prelude::*;

use crate::hir::{clone_types, models, types_eq, FnId, Hir, HirFunction, HirInterface, HirModule, HirStruct, TypeId, TypeModel};
use crate::hir::{model, ResolvedType};
use crate::lower::subst::subst_model;
use crate::validator::fn_index;
use crate::lower::MonoTask;
use crate::mir::{MirFnId, MirTypeId};
use std::collections::VecDeque;

verus! {

/// The model of a monomorphization task.
pub enum TaskM {
    /// Function, type arguments, id of the lowered function.
    Function(nat, Seq<TypeModel>, nat),
    /// Struct instance, interface instance, struct, its arguments,
    /// interface, its arguments.
    VTable(nat, nat, nat, Seq<TypeModel>, nat, Seq<TypeModel>),
}

pub open spec fn task_m(t: MonoTask) -> TaskM {
    match t {
        MonoTask::Function { fn_id, type_args, mir_id } => TaskM::Function(
            fn_id.0 as nat,
            models(type_args@),
            mir_id.0 as nat,
        ),
        MonoTask::VTable { struct_mir, interface_mir, struct_hir, struct_args, iface_hir, iface_args } => TaskM::VTable(
            struct_mir.0 as nat,
            interface_mir.0 as nat,
            struct_hir.0 as nat,
            models(struct_args@),
            iface_hir.0 as nat,
            models(iface_args@),
        ),
    }
}

/// A function instance: the function and its concrete type arguments.
pub type FnKey = (nat, Seq<TypeModel>);

/// The model of monomorphization: the function instances made so far with
/// their ids, in the order they were made; the tasks still to do, first
/// first; and the next function id.
pub struct MonoM {
    pub fns: Seq<(FnKey, nat)>,
    pub queue: Seq<TaskM>,
    pub next_fn: nat,
}

/// The index of the instance `k` among `fns`, or -1.
pub open spec fn key_index(fns: Seq<(FnKey, nat)>, k: FnKey) -> int
    decreases fns.len(),
{
    if fns.len() == 0 {
        -1
    } else if key_index(fns.drop_last(), k) >= 0 {
        key_index(fns.drop_last(), k)
    } else if fns.last().0 == k {
        fns.len() - 1
    } else {
        -1
    }
}

/// Each instance is made once, and ids are distinct and below the next.
pub open spec fn mono_wf(m: MonoM) -> bool {
    &&& forall|a: int, b: int| 0 <= a < b < m.fns.len() ==> (#[trigger] m.fns[a]).0 != (#[trigger] m.fns[b]).0
    &&& forall|a: int, b: int| 0 <= a < b < m.fns.len() ==> (#[trigger] m.fns[a]).1 != (#[trigger] m.fns[b]).1
    &&& forall|a: int| 0 <= a < m.fns.len() ==> (#[trigger] m.fns[a]).1 < m.next_fn
}

/// Asking for the instance `k`: a known instance keeps its id and nothing
/// changes; a new one gets the next id, is recorded, and its lowering is
/// queued last.
pub open spec fn mono_fn_spec(m: MonoM, k: FnKey) -> (MonoM, nat) {
    let i = key_index(m.fns, k);
    if i >= 0 {
        (m, m.fns[i].1)
    } else {
        (
            MonoM {
                fns: m.fns.push((k, m.next_fn)),
                queue: m.queue.push(TaskM::Function(k.0, k.1, m.next_fn)),
                next_fn: m.next_fn + 1,
            },
            m.next_fn,
        )
    }
}

proof fn lemma_key_index(fns: Seq<(FnKey, nat)>, k: FnKey)
    ensures
        -1 <= key_index(fns, k) < fns.len(),
        key_index(fns, k) >= 0 ==> fns[key_index(fns, k)].0 == k,
        key_index(fns, k) < 0 ==> forall|j: int| 0 <= j < fns.len() ==> (#[trigger] fns[j]).0 != k,
    decreases fns.len(),
{
    if fns.len() > 0 {
        lemma_key_index(fns.drop_last(), k);
        assert forall|j: int| 0 <= j < fns.len() - 1 implies #[trigger] fns[j] == fns.drop_last()[j] by {}
    }
}

proof fn lemma_key_index_push(fns: Seq<(FnKey, nat)>, k: FnKey, id: nat)
    requires
        key_index(fns, k) < 0,
    ensures
        key_index(fns.push((k, id)), k) == fns.len(),
{
    assert(fns.push((k, id)).drop_last() =~= fns);
}

proof fn lemma_key_index_unique(fns: Seq<(FnKey, nat)>, k: FnKey, j: int)
    requires
        0 <= j < fns.len(),
        fns[j].0 == k,
        forall|a: int, b: int| 0 <= a < b < fns.len() ==> (#[trigger] fns[a]).0 != (#[trigger] fns[b]).0,
    ensures
        key_index(fns, k) == j,
{
    lemma_key_index(fns, k);
}

/// Monomorphization makes each instance once: asking again for an instance
/// just made gives the same id and changes nothing.
pub proof fn law_mono_fn_is_cached(m: MonoM, k: FnKey)
    ensures
        ({
            let (m1, id) = mono_fn_spec(m, k);
            mono_fn_spec(m1, k) == (m1, id)
        }),
{
    if key_index(m.fns, k) < 0 {
        lemma_key_index_push(m.fns, k, m.next_fn);
    }
}

/// Distinct instances get distinct ids, and the state stays well formed.
pub proof fn law_mono_fn_distinct_ids(m: MonoM, k1: FnKey, k2: FnKey)
    requires
        mono_wf(m),
        k1 != k2,
    ensures
        ({
            let (m1, id1) = mono_fn_spec(m, k1);
            let (m2, id2) = mono_fn_spec(m1, k2);
            &&& mono_wf(m1)
            &&& mono_wf(m2)
            &&& id1 != id2
        }),
{
    lemma_mono_wf(m, k1);
    let (m1, id1) = mono_fn_spec(m, k1);
    lemma_mono_wf(m1, k2);
    lemma_key_index(m.fns, k1);
    lemma_key_index(m1.fns, k2);
    lemma_key_index(m1.fns, k1);
    if key_index(m.fns, k1) < 0 {
        lemma_key_index_push(m.fns, k1, m.next_fn);
    }
    let i1 = key_index(m1.fns, k1);
    let i2 = key_index(m1.fns, k2);
    assert(m1.fns[i1].1 == id1);
    if i2 >= 0 {
        assert(i1 != i2);
        if i1 < i2 {
            assert(m1.fns[i1].1 != m1.fns[i2].1);
        } else {
            assert(m1.fns[i2].1 != m1.fns[i1].1);
        }
    }
}

proof fn lemma_mono_wf(m: MonoM, k: FnKey)
    requires
        mono_wf(m),
    ensures
        mono_wf(mono_fn_spec(m, k).0),
        mono_fn_spec(m, k).1 < mono_fn_spec(m, k).0.next_fn,
{
    lemma_key_index(m.fns, k);
    if key_index(m.fns, k) < 0 {
        let f = m.fns.push((k, m.next_fn));
        assert forall|a: int, b: int| 0 <= a < b < f.len() implies (#[trigger] f[a]).0 != (#[trigger] f[b]).0 by {
            if b == f.len() - 1 {
                assert(f[a] == m.fns[a]);
            } else {
                assert(f[a] == m.fns[a] && f[b] == m.fns[b]);
            }
        }
        assert forall|a: int, b: int| 0 <= a < b < f.len() implies (#[trigger] f[a]).1 != (#[trigger] f[b]).1 by {
            if b == f.len() - 1 {
                assert(f[a] == m.fns[a]);
            } else {
                assert(f[a] == m.fns[a] && f[b] == m.fns[b]);
            }
        }
        assert forall|a: int| 0 <= a < f.len() implies (#[trigger] f[a]).1 < m.next_fn + 1 by {
            if a < f.len() - 1 {
                assert(f[a] == m.fns[a]);
            }
        }
    }
}

/// The id of an optional type, as a number.
pub open spec fn tid_m(o: Option<TypeId>) -> Option<nat> {
    match o {
        Some(t) => Some(t.0 as nat),
        None => None,
    }
}

/// The name of the first module with id `id`.
pub open spec fn module_name_by_id(mods: Seq<HirModule>, id: nat) -> Option<Seq<char>>
    decreases mods.len(),
{
    if mods.len() == 0 {
        None
    } else {
        match module_name_by_id(mods.drop_last(), id) {
            Some(n) => Some(n),
            None => if mods.last().id.0 == id {
                Some(mods.last().name@)
            } else {
                None
            },
        }
    }
}

/// The last interface named `Iterator` whose module is `of:core`.
pub open spec fn core_iterator(ifaces: Seq<HirInterface>, mods: Seq<HirModule>) -> Option<nat>
    decreases ifaces.len(),
{
    if ifaces.len() == 0 {
        None
    } else {
        let i = ifaces.last();
        if i.name@ == "Iterator"@ && module_name_by_id(mods, i.module.0 as nat) == Some("of:core"@) {
            Some(i.id.0 as nat)
        } else {
            core_iterator(ifaces.drop_last(), mods)
        }
    }
}

/// The last struct named `Entry` whose module is `of:core`.
pub open spec fn core_entry(structs: Seq<HirStruct>, mods: Seq<HirModule>) -> Option<nat>
    decreases structs.len(),
{
    if structs.len() == 0 {
        None
    } else {
        let s = structs.last();
        if s.name@ == "Entry"@ && module_name_by_id(mods, s.module.0 as nat) == Some("of:core"@) {
            Some(s.id.0 as nat)
        } else {
            core_entry(structs.drop_last(), mods)
        }
    }
}

/// Whether `f` can be the program's entry: a free, non-generic `main`.
pub open spec fn is_main(f: HirFunction) -> bool {
    f.name@ == "main"@ && f.owner is None && f.type_params@.len() == 0
}

/// The first function that can be the program's entry.
pub open spec fn main_index(fns: Seq<HirFunction>) -> int
    decreases fns.len(),
{
    if fns.len() == 0 {
        -1
    } else if main_index(fns.drop_last()) >= 0 {
        main_index(fns.drop_last())
    } else if is_main(fns.last()) {
        fns.len() - 1
    } else {
        -1
    }
}

/// Lowering state: the validated program, and the monomorphization of its
/// functions (instances made, tasks still queued).
pub struct Lower {
    pub hir: Hir,
    /// Function instances made so far: function, type arguments, id.
    mono_fns: Vec<(FnId, Vec<ResolvedType>, MirFnId)>,
    /// The tasks queued and not yet taken, first to be taken first.
    worklist: VecDeque<MonoTask>,
    next_fn_id: u32,
    pub entry_mir_fn: Option<MirFnId>,
    /// `of:core`'s `Iterator` interface, if the program has it.
    pub iterator_interface: Option<TypeId>,
    /// `of:core`'s `Entry` struct, if the program has it.
    pub entry_struct: Option<TypeId>,
}

impl Lower {
    pub closed spec fn view(&self) -> MonoM {
        MonoM {
            fns: self.mono_fns@.map_values(
                |e: (FnId, Vec<ResolvedType>, MirFnId)| ((e.0.0 as nat, models(e.1@)), e.2.0 as nat),
            ),
            queue: self.worklist@.map_values(|t: MonoTask| task_m(t)),
            next_fn: self.next_fn_id as nat,
        }
    }

    /// The program being lowered.
    pub closed spec fn hir_v(&self) -> Hir {
        self.hir
    }

    /// The lowered entry, once set.
    pub closed spec fn entry_v(&self) -> Option<MirFnId> {
        self.entry_mir_fn
    }

    /// The `of:core` types located.
    pub closed spec fn core_v(&self) -> (Option<TypeId>, Option<TypeId>) {
        (self.iterator_interface, self.entry_struct)
    }

    pub closed spec fn wf(&self) -> bool {
        &&& mono_wf(self@)
    }

    /// Lowering state for `hir`: nothing made or queued yet; the `of:core`
    /// types that lowering needs are located.
    pub fn new(hir: Hir) -> (r: Self)
        ensures
            r.wf(),
            r@ == (MonoM { fns: Seq::empty(), queue: Seq::empty(), next_fn: 0 }),
            r.hir_v() == hir,
            r.entry_v() is None,
            tid_m(r.core_v().0) == core_iterator(hir.interfaces@, hir.modules@),
            tid_m(r.core_v().1) == core_entry(hir.structs@, hir.modules@),
    {
        let iterator_interface = locate_iterator(&hir);
        let entry_struct = locate_entry(&hir);
        let r = Lower {
            hir,
            mono_fns: Vec::new(),
            worklist: VecDeque::new(),
            next_fn_id: 0,
            entry_mir_fn: None,
            iterator_interface,
            entry_struct,
        };
        assert(r@.fns =~= Seq::<(FnKey, nat)>::empty());
        assert(r@.queue =~= Seq::<TaskM>::empty());
        r
    }

    /// A fresh function id.
    fn alloc_fn_id(&mut self) -> (r: MirFnId)
        requires
            old(self).next_fn_id < u32::MAX,
        ensures
            r.0 == old(self).next_fn_id,
            final(self).next_fn_id == old(self).next_fn_id + 1,
            final(self).mono_fns == old(self).mono_fns,
            final(self).worklist@ == old(self).worklist@,
            final(self).hir == old(self).hir,
            final(self).entry_mir_fn == old(self).entry_mir_fn,
            final(self).iterator_interface == old(self).iterator_interface,
            final(self).entry_struct == old(self).entry_struct,
    {
        let id = MirFnId(self.next_fn_id);
        self.next_fn_id = self.next_fn_id + 1;
        id
    }

    /// The id of the instance of `fn_id` for `type_args`: a known instance
    /// keeps its id; a new one gets a fresh id and its lowering is queued.
    pub fn mono_fn(&mut self, fn_id: FnId, type_args: Vec<ResolvedType>) -> (r: MirFnId)
        requires
            old(self).wf(),
            old(self)@.next_fn < u32::MAX,
        ensures
            final(self).wf(),
            final(self).hir_v() == old(self).hir_v(),
            final(self).entry_v() == old(self).entry_v(),
            final(self).core_v() == old(self).core_v(),
            (final(self)@, r.0 as nat) == mono_fn_spec(old(self)@, (fn_id.0 as nat, models(type_args@))),
    {
        let ghost m0 = self@;
        let ghost k = (fn_id.0 as nat, models(type_args@));
        proof {
            lemma_key_index(m0.fns, k);
            lemma_mono_wf(m0, k);
        }
        let mut i: usize = 0;
        while i < self.mono_fns.len()
            invariant
                i <= self.mono_fns@.len(),
                m0 == self@,
                k == (fn_id.0 as nat, models(type_args@)),
                self.wf(),
                forall|j: int| 0 <= j < i ==> (#[trigger] m0.fns[j]).0 != k,
            decreases self.mono_fns@.len() - i,
        {
            proof {
                assert(m0.fns[i as int] == ((self.mono_fns@[i as int].0.0 as nat, models(self.mono_fns@[i as int].1@)),
                    self.mono_fns@[i as int].2.0 as nat));
            }
            let same_fn = self.mono_fns[i].0.0 == fn_id.0;
            let same_args = types_eq(&self.mono_fns[i].1, &type_args);
            proof {
                let e = m0.fns[i as int].0;
                if same_fn && same_args {
                    assert(e == k);
                }
            }
            if same_fn && same_args {
                proof {
                    assert(m0.fns[i as int].0 == k);
                    lemma_key_index_unique(m0.fns, k, i as int);
                }
                return self.mono_fns[i].2;
            }
            proof {
                assert(m0.fns[i as int].0 != k);
            }
            i = i + 1;
        }
        let mid = self.alloc_fn_id();
        let args_copy = clone_types(&type_args);
        let ghost f0 = self.mono_fns@;
        let ghost w0 = self.worklist@;
        self.mono_fns.push((fn_id, args_copy, mid));
        let task = MonoTask::Function { fn_id, type_args, mir_id: mid };
        self.worklist.push_back(task);
        proof {
            assert(self@.fns =~= m0.fns.push((k, mid.0 as nat)));
            assert(self.worklist@ =~= w0.push(task));
            assert(self@.queue =~= m0.queue.push(TaskM::Function(k.0, k.1, mid.0 as nat)));
        }
        mid
    }

    /// Takes the first queued task, if any.
    pub fn pop_task(&mut self) -> (r: Option<MonoTask>)
        requires
            old(self).wf(),
        ensures
            final(self).wf(),
            final(self).hir_v() == old(self).hir_v(),
            final(self).entry_v() == old(self).entry_v(),
            final(self).core_v() == old(self).core_v(),
            match r {
                Some(t) => old(self)@.queue.len() > 0 && task_m(t) == old(self)@.queue[0] && final(self)@ == (MonoM {
                    queue: old(self)@.queue.drop_first(),
                    ..old(self)@
                }),
                None => old(self)@.queue.len() == 0 && final(self)@ == old(self)@,
            },
    {
        let ghost q0 = self@.queue;
        let ghost w0 = self.worklist@;
        let t = self.worklist.pop_front();
        proof {
            if t is Some {
                assert(self.worklist@ =~= w0.drop_first());
                assert(self@.queue =~= q0.drop_first());
            } else {
                assert(self@.queue =~= q0);
            }
        }
        t
    }

    /// The program's entry: the first free, non-generic function `main`.
    pub fn find_main(&self) -> (r: Option<FnId>)
        ensures
            match r {
                Some(id) => main_index(self.hir_v().functions@) >= 0 && id == self.hir_v().functions@[main_index(
                    self.hir_v().functions@,
                )].id,
                None => main_index(self.hir_v().functions@) < 0,
            },
    {
        let ghost m = self.hir.functions@;
        let main_name = "main".to_owned();
        let mut k: usize = 0;
        while k < self.hir.functions.len()
            invariant
                k <= m.len(),
                m == self.hir.functions@,
                main_name@ == "main"@,
                main_index(m.take(k as int)) < 0,
            decreases m.len() - k,
        {
            assert(m.take(k as int + 1).drop_last() =~= m.take(k as int));
            let f = &self.hir.functions[k];
            if f.name == main_name && f.owner.is_none() && f.type_params.len() == 0 {
                proof {
                    assert(is_main(m[k as int]));
                    assert(main_index(m.take(k as int + 1)) == k);
                    lemma_main_index_prefix(m, k as int + 1);
                }
                return Some(f.id);
            }
            k = k + 1;
        }
        assert(m.take(k as int) =~= m);
        None
    }
}

proof fn lemma_main_index_prefix(m: Seq<HirFunction>, n: int)
    requires
        0 <= n <= m.len(),
        main_index(m.take(n)) >= 0,
    ensures
        main_index(m) == main_index(m.take(n)),
    decreases m.len() - n,
{
    if n < m.len() {
        assert(m.take(n + 1).drop_last() =~= m.take(n));
        lemma_main_index_prefix(m, n + 1);
    } else {
        assert(m.take(n) =~= m);
    }
}

/// The name of the first module with id `id`.
fn module_name_of(mods: &Vec<HirModule>, id: u32) -> (r: Option<&String>)
    ensures
        match r {
            Some(n) => module_name_by_id(mods@, id as nat) == Some(n@),
            None => module_name_by_id(mods@, id as nat) is None,
        },
{
    let ghost m = mods@;
    let mut k: usize = 0;
    while k < mods.len()
        invariant
            k <= m.len(),
            m == mods@,
            module_name_by_id(m.take(k as int), id as nat) is None,
        decreases m.len() - k,
    {
        assert(m.take(k as int + 1).drop_last() =~= m.take(k as int));
        if mods[k].id.0 == id {
            proof {
                lemma_module_name_prefix(m, id as nat, k as int + 1);
            }
            return Some(&mods[k].name);
        }
        k = k + 1;
    }
    assert(m.take(k as int) =~= m);
    None
}

proof fn lemma_module_name_prefix(m: Seq<HirModule>, id: nat, n: int)
    requires
        0 <= n <= m.len(),
        module_name_by_id(m.take(n), id) is Some,
    ensures
        module_name_by_id(m, id) == module_name_by_id(m.take(n), id),
    decreases m.len() - n,
{
    if n < m.len() {
        assert(m.take(n + 1).drop_last() =~= m.take(n));
        lemma_module_name_prefix(m, id, n + 1);
    } else {
        assert(m.take(n) =~= m);
    }
}

/// Whether the module `id` is `of:core`.
fn in_core(mods: &Vec<HirModule>, id: u32) -> (r: bool)
    ensures
        r == (module_name_by_id(mods@, id as nat) == Some("of:core"@)),
{
    let core = "of:core".to_owned();
    match module_name_of(mods, id) {
        Some(n) => *n == core,
        None => false,
    }
}

/// `of:core`'s `Iterator` interface: the last such.
fn locate_iterator(hir: &Hir) -> (r: Option<TypeId>)
    ensures
        tid_m(r) == core_iterator(hir.interfaces@, hir.modules@),
{
    let ghost m = hir.interfaces@;
    let name = "Iterator".to_owned();
    let mut k: usize = hir.interfaces.len();
    assert(m.take(k as int) =~= m);
    while k > 0
        invariant
            k <= m.len(),
            m == hir.interfaces@,
            name@ == "Iterator"@,
            core_iterator(m, hir.modules@) == core_iterator(m.take(k as int), hir.modules@),
        decreases k,
    {
        assert(m.take(k as int).drop_last() =~= m.take(k as int - 1));
        let i = &hir.interfaces[k - 1];
        if i.name == name && in_core(&hir.modules, i.module.0) {
            return Some(i.id);
        }
        k = k - 1;
    }
    None
}

/// `of:core`'s `Entry` struct: the last such.
fn locate_entry(hir: &Hir) -> (r: Option<TypeId>)
    ensures
        tid_m(r) == core_entry(hir.structs@, hir.modules@),
{
    let ghost m = hir.structs@;
    let name = "Entry".to_owned();
    let mut k: usize = hir.structs.len();
    assert(m.take(k as int) =~= m);
    while k > 0
        invariant
            k <= m.len(),
            m == hir.structs@,
            name@ == "Entry"@,
            core_entry(m, hir.modules@) == core_entry(m.take(k as int), hir.modules@),
        decreases k,
    {
        assert(m.take(k as int).drop_last() =~= m.take(k as int - 1));
        let s = &hir.structs[k - 1];
        if s.name == name && in_core(&hir.modules, s.module.0) {
            return Some(s.id);
        }
        k = k - 1;
    }
    None
}


/// What scanning a list of methods for a name finds: the first function
/// with that name, a method id with no function (where the scan stops), or
/// nothing.
pub enum ScanM {
    Found(nat),
    Missing,
    NotFound,
}

/// Scans the methods `ids` in order for one named `name`.
pub open spec fn scan_methods(fns: Seq<HirFunction>, ids: Seq<FnId>, name: Seq<char>) -> ScanM
    decreases ids.len(),
{
    if ids.len() == 0 {
        ScanM::NotFound
    } else {
        match scan_methods(fns, ids.drop_last(), name) {
            ScanM::NotFound => {
                let i = fn_index(fns, ids.last().0 as nat);
                if i < 0 {
                    ScanM::Missing
                } else if fns[i].name@ == name {
                    ScanM::Found(ids.last().0 as nat)
                } else {
                    ScanM::NotFound
                }
            },
            other => other,
        }
    }
}

/// Whether every type argument is a type parameter.
pub open spec fn all_type_params(args: Seq<TypeModel>) -> bool {
    forall|i: int| 0 <= i < args.len() ==> (#[trigger] args[i]) is TypeParam
}

/// Scans extend methods in order for one named `name` whose target
/// arguments are all type parameters.
pub open spec fn scan_extends(fns: Seq<HirFunction>, ext: Seq<(Vec<ResolvedType>, FnId)>, name: Seq<char>) -> ScanM
    decreases ext.len(),
{
    if ext.len() == 0 {
        ScanM::NotFound
    } else {
        match scan_extends(fns, ext.drop_last(), name) {
            ScanM::NotFound => {
                let e = ext.last();
                let i = fn_index(fns, e.1.0 as nat);
                if i < 0 {
                    ScanM::Missing
                } else if fns[i].name@ == name && all_type_params(models(e.0@)) {
                    ScanM::Found(e.1.0 as nat)
                } else {
                    ScanM::NotFound
                }
            },
            other => other,
        }
    }
}

/// The index of the first struct with id `id`, or -1.
pub open spec fn struct_pos(structs: Seq<HirStruct>, id: nat) -> int
    decreases structs.len(),
{
    if structs.len() == 0 {
        -1
    } else if struct_pos(structs.drop_last(), id) >= 0 {
        struct_pos(structs.drop_last(), id)
    } else if structs.last().id.0 == id {
        structs.len() - 1
    } else {
        -1
    }
}

/// The method `name` of struct `owner`: an inherent method first, else an
/// extend method for any type arguments (all of its target arguments type
/// parameters).
pub open spec fn resolve_method_spec(hir: Hir, owner: nat, name: Seq<char>) -> ScanM {
    let si = struct_pos(hir.structs@, owner);
    if si < 0 {
        ScanM::Missing
    } else {
        let st = hir.structs@[si];
        match scan_methods(hir.functions@, st.methods@, name) {
            ScanM::NotFound => scan_extends(hir.functions@, st.specialised_methods@, name),
            other => other,
        }
    }
}

/// The first free function named `name`, or -1.
pub open spec fn free_fn_index(fns: Seq<HirFunction>, name: Seq<char>) -> int
    decreases fns.len(),
{
    if fns.len() == 0 {
        -1
    } else if free_fn_index(fns.drop_last(), name) >= 0 {
        free_fn_index(fns.drop_last(), name)
    } else if fns.last().owner is None && fns.last().name@ == name {
        fns.len() - 1
    } else {
        -1
    }
}

proof fn lemma_fn_index_bounds(fns: Seq<HirFunction>, id: nat)
    ensures
        -1 <= fn_index(fns, id) < fns.len(),
        fn_index(fns, id) >= 0 ==> fns[fn_index(fns, id)].id.0 == id,
    decreases fns.len(),
{
    if fns.len() > 0 {
        lemma_fn_index_bounds(fns.drop_last(), id);
    }
}

proof fn lemma_fn_index_take(m: Seq<HirFunction>, id: nat, n: int)
    requires
        0 <= n <= m.len(),
        fn_index(m.take(n), id) >= 0,
    ensures
        fn_index(m, id) == fn_index(m.take(n), id),
    decreases m.len() - n,
{
    if n < m.len() {
        assert(m.take(n + 1).drop_last() =~= m.take(n));
        lemma_fn_index_take(m, id, n + 1);
    } else {
        assert(m.take(n) =~= m);
    }
}

/// The position of the first function with id `id`.
fn fn_pos(fns: &Vec<HirFunction>, id: FnId) -> (r: Option<usize>)
    ensures
        match r {
            Some(k) => k as int == fn_index(fns@, id.0 as nat) && k < fns@.len(),
            None => fn_index(fns@, id.0 as nat) < 0,
        },
{
    let ghost m = fns@;
    let mut k: usize = 0;
    while k < fns.len()
        invariant
            k <= m.len(),
            m == fns@,
            fn_index(m.take(k as int), id.0 as nat) < 0,
        decreases m.len() - k,
    {
        assert(m.take(k as int + 1).drop_last() =~= m.take(k as int));
        if fns[k].id.0 == id.0 {
            proof {
                lemma_fn_index_take(m, id.0 as nat, k as int + 1);
            }
            return Some(k);
        }
        k = k + 1;
    }
    assert(m.take(k as int) =~= m);
    None
}

proof fn lemma_struct_pos(m: Seq<HirStruct>, id: nat, n: int)
    requires
        0 <= n <= m.len(),
        struct_pos(m.take(n), id) >= 0,
    ensures
        struct_pos(m, id) == struct_pos(m.take(n), id),
    decreases m.len() - n,
{
    if n < m.len() {
        assert(m.take(n + 1).drop_last() =~= m.take(n));
        lemma_struct_pos(m, id, n + 1);
    } else {
        assert(m.take(n) =~= m);
    }
}

proof fn lemma_scan_methods_prefix(fns: Seq<HirFunction>, ids: Seq<FnId>, name: Seq<char>, n: int)
    requires
        0 <= n <= ids.len(),
        !(scan_methods(fns, ids.take(n), name) is NotFound),
    ensures
        scan_methods(fns, ids, name) == scan_methods(fns, ids.take(n), name),
    decreases ids.len() - n,
{
    if n < ids.len() {
        assert(ids.take(n + 1).drop_last() =~= ids.take(n));
        lemma_scan_methods_prefix(fns, ids, name, n + 1);
    } else {
        assert(ids.take(n) =~= ids);
    }
}

proof fn lemma_scan_extends_prefix(
    fns: Seq<HirFunction>,
    ext: Seq<(Vec<ResolvedType>, FnId)>,
    name: Seq<char>,
    n: int,
)
    requires
        0 <= n <= ext.len(),
        !(scan_extends(fns, ext.take(n), name) is NotFound),
    ensures
        scan_extends(fns, ext, name) == scan_extends(fns, ext.take(n), name),
    decreases ext.len() - n,
{
    if n < ext.len() {
        assert(ext.take(n + 1).drop_last() =~= ext.take(n));
        lemma_scan_extends_prefix(fns, ext, name, n + 1);
    } else {
        assert(ext.take(n) =~= ext);
    }
}

/// Whether every type in `v` is a type parameter.
pub(crate) fn all_params(v: &Vec<ResolvedType>) -> (r: bool)
    ensures
        r == all_type_params(models(v@)),
{
    proof {
        crate::hir::lemma_models(v@);
    }
    let mut i: usize = 0;
    while i < v.len()
        invariant
            i <= v@.len(),
            models(v@).len() == v@.len(),
            forall|k: int| 0 <= k < v@.len() ==> #[trigger] models(v@)[k] == crate::hir::model(v@[k]),
            forall|k: int| 0 <= k < i ==> (#[trigger] models(v@)[k]) is TypeParam,
        decreases v@.len() - i,
    {
        match &v[i] {
            ResolvedType::TypeParam(_) => {},
            _ => {
                assert(!(models(v@)[i as int] is TypeParam));
                return false;
            },
        }
        i = i + 1;
    }
    true
}

impl Lower {
    /// The first free function named `name`.
    pub fn lookup_free_function(&self, name: &String) -> (r: Option<FnId>)
        ensures
            match r {
                Some(id) => free_fn_index(self.hir_v().functions@, name@) >= 0 && id == self.hir_v().functions@[free_fn_index(
                    self.hir_v().functions@,
                    name@,
                )].id,
                None => free_fn_index(self.hir_v().functions@, name@) < 0,
            },
    {
        let ghost m = self.hir.functions@;
        let mut k: usize = 0;
        while k < self.hir.functions.len()
            invariant
                k <= m.len(),
                m == self.hir.functions@,
                free_fn_index(m.take(k as int), name@) < 0,
            decreases m.len() - k,
        {
            assert(m.take(k as int + 1).drop_last() =~= m.take(k as int));
            let f = &self.hir.functions[k];
            if f.owner.is_none() && f.name == *name {
                proof {
                    lemma_free_fn_prefix(m, name@, k as int + 1);
                }
                return Some(f.id);
            }
            k = k + 1;
        }
        assert(m.take(k as int) =~= m);
        None
    }

    /// The method `method_name` of struct `owner`: its first inherent method
    /// of that name, else its first extend method of that name whose target
    /// arguments are all type parameters. The struct, and every function the
    /// search reads, must exist, and the method must be found.
    pub fn resolve_method(&self, owner: TypeId, method_name: &String) -> (r: FnId)
        requires
            resolve_method_spec(self.hir_v(), owner.0 as nat, method_name@) is Found,
        ensures
            resolve_method_spec(self.hir_v(), owner.0 as nat, method_name@) == ScanM::Found(r.0 as nat),
    {
        let ghost structs = self.hir.structs@;
        let ghost fns = self.hir.functions@;
        let si = match struct_position(&self.hir.structs, owner) {
            Some(k) => k,
            None => {
                return FnId(0);
            },
        };
        let st = &self.hir.structs[si];
        let ghost ids = st.methods@;
        let mut k: usize = 0;
        while k < st.methods.len()
            invariant
                k <= ids.len(),
                ids == st.methods@,
                fns == self.hir.functions@,
                structs == self.hir.structs@,
                si as int == struct_pos(structs, owner.0 as nat),
                si < structs.len(),
                *st == structs[si as int],
                resolve_method_spec(self.hir_v(), owner.0 as nat, method_name@) is Found,
                scan_methods(fns, ids.take(k as int), method_name@) is NotFound,
            decreases ids.len() - k,
        {
            assert(ids.take(k as int + 1).drop_last() =~= ids.take(k as int));
            assert(ids.take(k as int + 1).last() == ids[k as int]);
            let id = st.methods[k];
            proof {
                lemma_fn_index_bounds(fns, id.0 as nat);
            }
            match fn_pos(&self.hir.functions, id) {
                Some(p) => {
                    if self.hir.functions[p].name == *method_name {
                        proof {
                            lemma_scan_methods_prefix(fns, ids, method_name@, k as int + 1);
                        }
                        return id;
                    }
                },
                None => {
                    proof {
                        lemma_scan_methods_prefix(fns, ids, method_name@, k as int + 1);
                    }
                    return id;
                },
            }
            k = k + 1;
        }
        proof {
            assert(ids.take(k as int) =~= ids);
        }
        let ghost ext = st.specialised_methods@;
        let mut j: usize = 0;
        while j < st.specialised_methods.len()
            invariant
                j <= ext.len(),
                ext == st.specialised_methods@,
                fns == self.hir.functions@,
                structs == self.hir.structs@,
                si as int == struct_pos(structs, owner.0 as nat),
                si < structs.len(),
                *st == structs[si as int],
                resolve_method_spec(self.hir_v(), owner.0 as nat, method_name@) is Found,
                scan_methods(fns, st.methods@, method_name@) is NotFound,
                scan_extends(fns, ext.take(j as int), method_name@) is NotFound,
            decreases ext.len() - j,
        {
            assert(ext.take(j as int + 1).drop_last() =~= ext.take(j as int));
            assert(ext.take(j as int + 1).last() == ext[j as int]);
            let id = st.specialised_methods[j].1;
            proof {
                lemma_fn_index_bounds(fns, id.0 as nat);
            }
            match fn_pos(&self.hir.functions, id) {
                Some(p) => {
                    if self.hir.functions[p].name == *method_name && all_params(&st.specialised_methods[j].0) {
                        proof {
                            lemma_scan_extends_prefix(fns, ext, method_name@, j as int + 1);
                        }
                        return id;
                    }
                },
                None => {
                    proof {
                        lemma_scan_extends_prefix(fns, ext, method_name@, j as int + 1);
                    }
                    return id;
                },
            }
            j = j + 1;
        }
        proof {
            assert(ext.take(j as int) =~= ext);
        }
        FnId(0)
    }
}

/// The position of the first struct with id `id`.
pub(crate) fn struct_position(structs: &Vec<HirStruct>, id: TypeId) -> (r: Option<usize>)
    ensures
        match r {
            Some(k) => k as int == struct_pos(structs@, id.0 as nat) && k < structs@.len(),
            None => struct_pos(structs@, id.0 as nat) < 0,
        },
{
    let ghost m = structs@;
    let mut k: usize = 0;
    while k < structs.len()
        invariant
            k <= m.len(),
            m == structs@,
            struct_pos(m.take(k as int), id.0 as nat) < 0,
        decreases m.len() - k,
    {
        assert(m.take(k as int + 1).drop_last() =~= m.take(k as int));
        if structs[k].id.0 == id.0 {
            proof {
                lemma_struct_pos(m, id.0 as nat, k as int + 1);
            }
            return Some(k);
        }
        k = k + 1;
    }
    assert(m.take(k as int) =~= m);
    None
}

proof fn lemma_free_fn_prefix(m: Seq<HirFunction>, name: Seq<char>, n: int)
    requires
        0 <= n <= m.len(),
        free_fn_index(m.take(n), name) >= 0,
    ensures
        free_fn_index(m, name) == free_fn_index(m.take(n), name),
    decreases m.len() - n,
{
    if n < m.len() {
        assert(m.take(n + 1).drop_last() =~= m.take(n));
        lemma_free_fn_prefix(m, name, n + 1);
    } else {
        assert(m.take(n) =~= m);
    }
}

/// Which loop `for x in e` lowers to, by the type of `e` after
/// substitution: an `of:core` `List<T>` or `Map<K, V>` loops by index,
/// anything else through its `Iterator`.
pub enum ForKind {
    List(ResolvedType),
    KeyedMap(ResolvedType, ResolvedType),
    Iterator,
}

/// The model of a `ForKind`.
pub enum ForKindM {
    List(TypeModel),
    KeyedMap(TypeModel, TypeModel),
    Iterator,
}

pub open spec fn for_kind_m(k: ForKind) -> ForKindM {
    match k {
        ForKind::List(t) => ForKindM::List(t@),
        ForKind::KeyedMap(a, b) => ForKindM::KeyedMap(a@, b@),
        ForKind::Iterator => ForKindM::Iterator,
    }
}

/// The loop for a value of type `t`; the struct of a struct type must
/// exist.
pub open spec fn for_kind_spec(hir: Hir, t: TypeModel) -> ForKindM {
    match t {
        TypeModel::Struct(id, args) => {
            let st = hir.structs@[struct_pos(hir.structs@, id as nat)];
            let core = module_name_by_id(hir.modules@, st.module.0 as nat) == Some("of:core"@);
            if core && st.name@ == "List"@ && args.len() == 1 {
                ForKindM::List(args[0])
            } else if core && st.name@ == "Map"@ && args.len() == 2 {
                ForKindM::KeyedMap(args[0], args[1])
            } else {
                ForKindM::Iterator
            }
        },
        _ => ForKindM::Iterator,
    }
}

/// The first interface `iter` implements as `Iterator` with one argument.
pub open spec fn iterator_impl_at(impls: Seq<(TypeId, Vec<ResolvedType>)>, iter: Option<TypeId>, k: int) -> Option<int>
    decreases impls.len() - k,
{
    if k < 0 || k >= impls.len() {
        None
    } else if Some(impls[k].0) == iter && impls[k].1@.len() == 1 {
        Some(k)
    } else {
        iterator_impl_at(impls, iter, k + 1)
    }
}

/// The element type of iterating a value of type `t`: the argument of the
/// `of:core` `Iterator<T>` itself, or of the first `Iterator<T>` that the
/// struct of `t` implements, under the struct's type arguments.
pub open spec fn iterator_element_spec(hir: Hir, iter: Option<TypeId>, t: TypeModel) -> Option<TypeModel> {
    match t {
        TypeModel::Interface(id, args) => if iter == Some(TypeId(id)) && args.len() == 1 {
            Some(args[0])
        } else {
            None
        },
        TypeModel::Struct(id, args) => {
            let si = struct_pos(hir.structs@, id as nat);
            if si < 0 {
                None
            } else {
                let st = hir.structs@[si];
                match iterator_impl_at(st.implements@, iter, 0) {
                    Some(k) => Some(
                        subst_model(
                            crate::lower::functions::positional(st.type_params@, args),
                            model(st.implements@[k].1@[0]),
                        ),
                    ),
                    None => None,
                }
            }
        },
        _ => None,
    }
}

proof fn lemma_iterator_impl_at(impls: Seq<(TypeId, Vec<ResolvedType>)>, iter: Option<TypeId>, k: int)
    requires
        0 <= k,
    ensures
        iterator_impl_at(impls, iter, k) matches Some(j) ==> k <= j < impls.len() && Some(impls[j].0) == iter
            && impls[j].1@.len() == 1,
    decreases impls.len() - k,
{
    if k < impls.len() {
        lemma_iterator_impl_at(impls, iter, k + 1);
    }
}

impl Lower {
    /// Which loop `for x in e` lowers to, for the type `iter_ty` of `e`
    /// after substitution (see `for_kind_spec`). A struct type's struct
    /// must exist.
    pub fn for_loop_kind(&self, iter_ty: &ResolvedType) -> (r: ForKind)
        requires
            iter_ty@ matches TypeModel::Struct(id, _) ==> struct_pos(self.hir_v().structs@, id as nat) >= 0,
        ensures
            for_kind_m(r) == for_kind_spec(self.hir_v(), iter_ty@),
    {
        proof {
            lemma_models_len_of(iter_ty);
        }
        match iter_ty {
            ResolvedType::Struct(id, args) => {
                let si = match struct_position(&self.hir.structs, *id) {
                    Some(k) => k,
                    None => {
                        return ForKind::Iterator;
                    },
                };
                let st = &self.hir.structs[si];
                let core = in_core(&self.hir.modules, st.module.0);
                let list = "List".to_owned();
                let map = "Map".to_owned();
                if core && st.name == list && args.len() == 1 {
                    proof {
                        crate::hir::lemma_models(args@);
                    }
                    ForKind::List(args[0].clone())
                } else if core && st.name == map && args.len() == 2 {
                    proof {
                        crate::hir::lemma_models(args@);
                    }
                    ForKind::KeyedMap(args[0].clone(), args[1].clone())
                } else {
                    ForKind::Iterator
                }
            },
            _ => ForKind::Iterator,
        }
    }

    /// The element type of iterating a value of type `iter_ty` (after
    /// substitution; see `iterator_element_spec`), which must be iterable.
    pub fn iterator_element_for(&self, iter_ty: &ResolvedType) -> (r: ResolvedType)
        requires
            iterator_element_spec(self.hir_v(), self.core_v().0, iter_ty@) is Some,
        ensures
            Some(r@) == iterator_element_spec(self.hir_v(), self.core_v().0, iter_ty@),
    {
        match iter_ty {
            ResolvedType::Interface(id, args) => {
                proof {
                    crate::hir::lemma_models(args@);
                }
                let same = match self.iterator_interface {
                    Some(it) => it.0 == id.0,
                    None => false,
                };
                if same && args.len() == 1 {
                    args[0].clone()
                } else {
                    ResolvedType::Null
                }
            },
            ResolvedType::Struct(id, args) => {
                let si = match struct_position(&self.hir.structs, *id) {
                    Some(k) => k,
                    None => {
                        return ResolvedType::Null;
                    },
                };
                let st = &self.hir.structs[si];
                let ghost impls = st.implements@;
                proof {
                    lemma_iterator_impl_at(impls, self.iterator_interface, 0);
                    assert(iter_ty@ == TypeModel::Struct(id.0, models(args@)));
                }
                let mut k: usize = 0;
                while k < st.implements.len()
                    invariant
                        iter_ty@ == TypeModel::Struct(id.0, models(args@)),
                        si as int == struct_pos(self.hir_v().structs@, id.0 as nat),
                        si < self.hir_v().structs@.len(),
                        *st == self.hir_v().structs@[si as int],
                        k <= impls.len(),
                        impls == st.implements@,
                        iterator_impl_at(impls, self.iterator_interface, 0) == iterator_impl_at(
                            impls,
                            self.iterator_interface,
                            k as int,
                        ),
                    decreases impls.len() - k,
                {
                    let entry = &st.implements[k];
                    let hit = match self.iterator_interface {
                        Some(it) => it.0 == entry.0.0,
                        None => false,
                    };
                    if hit && entry.1.len() == 1 {
                        proof {
                            assert(Some(entry.0) == self.iterator_interface);
                            assert(iterator_impl_at(impls, self.iterator_interface, k as int) == Some(k as int));
                        }
                        let sub = crate::lower::functions::positional_subst(&st.type_params, args);
                        let r = sub.apply(&entry.1[0]);
                        proof {
                            assert(r@ == subst_model(
                                crate::lower::functions::positional(st.type_params@, models(args@)),
                                model(impls[k as int].1@[0]),
                            ));
                        }
                        return r;
                    }
                    k = k + 1;
                }
                ResolvedType::Null
            },
            _ => ResolvedType::Null,
        }
    }
}

/// Exposes the models of a type's arguments.
proof fn lemma_models_len_of(t: &ResolvedType)
    ensures
        t matches ResolvedType::Struct(_, args) ==> models(args@).len() == args@.len(),
{
    if let ResolvedType::Struct(_, args) = t {
        crate::hir::lemma_models(args@);
    }
}

} // verus!
