use vstd::prelude::*;

verus! {

/// The key of a dispatch entry: the struct's type id, the interface's id,
/// and the method's slot in the interface.
pub open spec fn key_of(e: (u64, u64, u64, usize)) -> (u64, u64, u64) {
    (e.0, e.1, e.2)
}

/// The table that a list of entries makes: a later entry for a key
/// replaces an earlier one.
pub open spec fn entries_map(s: Seq<(u64, u64, u64, usize)>) -> Map<(u64, u64, u64), usize>
    decreases s.len(),
{
    if s.len() == 0 {
        Map::empty()
    } else {
        entries_map(s.drop_last()).insert(key_of(s.last()), s.last().3)
    }
}

/// No key occurs twice.
pub open spec fn distinct_keys(s: Seq<(u64, u64, u64, usize)>) -> bool {
    forall|i: int, j: int| 0 <= i < j < s.len() ==> key_of(s[i]) != key_of(s[j])
}

/// The registry that virtual calls look their targets up in: for each
/// (struct type id, interface id, slot), the address of the method.
pub struct VTableRegistry {
    entries: Vec<(u64, u64, u64, usize)>,
}

impl View for VTableRegistry {
    type V = Map<(u64, u64, u64), usize>;

    closed spec fn view(&self) -> Map<(u64, u64, u64), usize> {
        entries_map(self.entries@)
    }
}

impl VTableRegistry {
    /// Each key is held once.
    pub closed spec fn wf(&self) -> bool {
        distinct_keys(self.entries@)
    }

    /// An empty registry.
    pub fn new() -> (r: VTableRegistry)
        ensures
            r.wf(),
            r@ == Map::<(u64, u64, u64), usize>::empty(),
    {
        VTableRegistry { entries: Vec::new() }
    }
}

/// What a lookup finds: the registered address for the receiver's type,
/// the interface and the slot, or the null address when the receiver is
/// null or nothing is registered.
pub open spec fn spec_vtable_lookup(
    m: Map<(u64, u64, u64), usize>,
    recv_type: Option<u64>,
    iface_id: u64,
    slot: u64,
) -> usize {
    match recv_type {
        None => 0,
        Some(t) => if m.dom().contains((t, iface_id, slot)) {
            m[(t, iface_id, slot)]
        } else {
            0
        },
    }
}

proof fn lemma_entries_map(s: Seq<(u64, u64, u64, usize)>)
    requires
        distinct_keys(s),
    ensures
        forall|k: (u64, u64, u64)|
            entries_map(s).dom().contains(k) <==> exists|i: int| 0 <= i < s.len() && key_of(s[i]) == k,
        forall|i: int| 0 <= i < s.len() ==> entries_map(s)[#[trigger] key_of(s[i])] == s[i].3,
    decreases s.len(),
{
    if s.len() > 0 {
        let p = s.drop_last();
        assert(distinct_keys(p));
        lemma_entries_map(p);
        assert forall|k: (u64, u64, u64)|
            entries_map(s).dom().contains(k) <==> exists|i: int| 0 <= i < s.len() && key_of(s[i]) == k by {
            if k == key_of(s.last()) {
                assert(key_of(s[s.len() - 1]) == k);
            } else {
                if entries_map(s).dom().contains(k) {
                    assert(entries_map(p).dom().contains(k));
                    let i = choose|i: int| 0 <= i < p.len() && key_of(p[i]) == k;
                    assert(p[i] == s[i]);
                    assert(key_of(s[i]) == k);
                }
                if exists|i: int| 0 <= i < s.len() && key_of(s[i]) == k {
                    let i = choose|i: int| 0 <= i < s.len() && key_of(s[i]) == k;
                    assert(i != s.len() - 1);
                    assert(p[i] == s[i]);
                    assert(key_of(p[i]) == k);
                }
            }
        }
        assert forall|i: int| 0 <= i < s.len() implies entries_map(s)[#[trigger] key_of(s[i])] == s[i].3 by {
            if i < s.len() - 1 {
                assert(key_of(s[i]) != key_of(s[s.len() - 1]));
                assert(p[i] == s[i]);
            }
        }
    }
}

proof fn lemma_entries_map_update(s: Seq<(u64, u64, u64, usize)>, i: int, v: usize)
    requires
        distinct_keys(s),
        0 <= i < s.len(),
    ensures
        distinct_keys(s.update(i, (s[i].0, s[i].1, s[i].2, v))),
        entries_map(s.update(i, (s[i].0, s[i].1, s[i].2, v))) == entries_map(s).insert(key_of(s[i]), v),
{
    let t = s.update(i, (s[i].0, s[i].1, s[i].2, v));
    assert forall|a: int, b: int| 0 <= a < b < t.len() implies key_of(t[a]) != key_of(t[b]) by {
        assert(key_of(t[a]) == key_of(s[a]));
        assert(key_of(t[b]) == key_of(s[b]));
    }
    lemma_entries_map(s);
    lemma_entries_map(t);
    let m1 = entries_map(t);
    let m2 = entries_map(s).insert(key_of(s[i]), v);
    assert forall|k: (u64, u64, u64)| m1.dom().contains(k) <==> m2.dom().contains(k) by {
        if m1.dom().contains(k) {
            let j = choose|j: int| 0 <= j < t.len() && key_of(t[j]) == k;
            assert(key_of(s[j]) == k);
        }
        if m2.dom().contains(k) && k != key_of(s[i]) {
            let j = choose|j: int| 0 <= j < s.len() && key_of(s[j]) == k;
            assert(key_of(t[j]) == k);
        }
        if k == key_of(s[i]) {
            assert(key_of(t[i]) == k);
        }
    }
    assert forall|k: (u64, u64, u64)| m1.dom().contains(k) implies m1[k] == m2[k] by {
        let j = choose|j: int| 0 <= j < t.len() && key_of(t[j]) == k;
        assert(m1[key_of(t[j])] == t[j].3);
        if j == i {
        } else {
            assert(key_of(s[j]) == k);
            assert(entries_map(s)[key_of(s[j])] == s[j].3);
            assert(key_of(s[j]) != key_of(s[i]));
        }
    }
    assert(m1 =~= m2);
}

/// Registers the method address for (struct, interface, slot), replacing
/// any earlier registration of the same key.
pub fn __of_vtable_register(reg: &mut VTableRegistry, struct_id: u64, iface_id: u64, slot: u64, fn_ptr: usize)
    requires
        old(reg).wf(),
    ensures
        final(reg).wf(),
        final(reg)@ == old(reg)@.insert((struct_id, iface_id, slot), fn_ptr),
{
    let ghost s = reg.entries@;
    proof {
        lemma_entries_map(s);
    }
    let mut k: usize = 0;
    while k < reg.entries.len()
        invariant
            reg.entries@ == s,
            old(reg).entries@ == s,
            distinct_keys(s),
            k <= s.len(),
            forall|j: int| 0 <= j < k ==> key_of(#[trigger] s[j]) != (struct_id, iface_id, slot),
        decreases s.len() - k,
    {
        let e = reg.entries[k];
        if e.0 == struct_id && e.1 == iface_id && e.2 == slot {
            reg.entries.set(k, (struct_id, iface_id, slot, fn_ptr));
            proof {
                assert(key_of(s[k as int]) == (struct_id, iface_id, slot));
                lemma_entries_map_update(s, k as int, fn_ptr);
            }
            return;
        }
        k = k + 1;
    }
    reg.entries.push((struct_id, iface_id, slot, fn_ptr));
    proof {
        let t = reg.entries@;
        assert(t.drop_last() =~= s);
        assert forall|a: int, b: int| 0 <= a < b < t.len() implies key_of(t[a]) != key_of(t[b]) by {
            if b == t.len() - 1 {
                assert(t[a] == s[a]);
            } else {
                assert(t[a] == s[a] && t[b] == s[b]);
            }
        }
    }
}

/// Removes every registration.
pub fn __of_vtable_clear(reg: &mut VTableRegistry)
    ensures
        final(reg).wf(),
        final(reg)@ == Map::<(u64, u64, u64), usize>::empty(),
{
    reg.entries.clear();
}

/// The method address registered for the receiver's type (`None` for a
/// null receiver), the interface and the slot; the null address when there
/// is none.
pub fn __of_vtable_lookup(reg: &VTableRegistry, recv_type: Option<u64>, iface_id: u64, slot: u64) -> (r: usize)
    requires
        reg.wf(),
    ensures
        r == spec_vtable_lookup(reg@, recv_type, iface_id, slot),
{
    let type_id = match recv_type {
        Some(t) => t,
        None => return 0,
    };
    let ghost s = reg.entries@;
    proof {
        lemma_entries_map(s);
    }
    let mut k: usize = 0;
    while k < reg.entries.len()
        invariant
            reg.entries@ == s,
            distinct_keys(s),
            recv_type == Some(type_id),
            k <= s.len(),
            forall|j: int| 0 <= j < k ==> key_of(#[trigger] s[j]) != (type_id, iface_id, slot),
            forall|q: (u64, u64, u64)|
                entries_map(s).dom().contains(q) <==> exists|i: int| 0 <= i < s.len() && key_of(s[i]) == q,
            forall|i: int| 0 <= i < s.len() ==> entries_map(s)[#[trigger] key_of(s[i])] == s[i].3,
        decreases s.len() - k,
    {
        let e = reg.entries[k];
        if e.0 == type_id && e.1 == iface_id && e.2 == slot {
            proof {
                assert(key_of(s[k as int]) == (type_id, iface_id, slot));
            }
            return e.3;
        }
        k = k + 1;
    }
    proof {
        if entries_map(s).dom().contains((type_id, iface_id, slot)) {
            let i = choose|i: int| 0 <= i < s.len() && key_of(s[i]) == (type_id, iface_id, slot);
            assert(key_of(s[i]) != (type_id, iface_id, slot));
        }
    }
    0
}

// ---------------------------------------------------------------------------
// Laws
// ---------------------------------------------------------------------------

/// A lookup finds what was registered last for its key; a registration of
/// another key leaves it as it was.
pub proof fn law_vtable_lookup_after_register(
    m: Map<(u64, u64, u64), usize>,
    struct_id: u64,
    iface_id: u64,
    slot: u64,
    fn_ptr: usize,
    recv_type: Option<u64>,
    other_iface: u64,
    other_slot: u64,
)
    ensures
        spec_vtable_lookup(m.insert((struct_id, iface_id, slot), fn_ptr), Some(struct_id), iface_id, slot)
            == fn_ptr,
        recv_type != Some(struct_id) || other_iface != iface_id || other_slot != slot ==> spec_vtable_lookup(
            m.insert((struct_id, iface_id, slot), fn_ptr),
            recv_type,
            other_iface,
            other_slot,
        ) == spec_vtable_lookup(m, recv_type, other_iface, other_slot),
{
}

/// After a clear, every lookup finds nothing.
pub proof fn law_vtable_lookup_after_clear(recv_type: Option<u64>, iface_id: u64, slot: u64)
    ensures
        spec_vtable_lookup(Map::empty(), recv_type, iface_id, slot) == 0,
{
}

} // verus!
