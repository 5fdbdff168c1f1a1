use vstd::prelude::*;

verus! {

/// The backing store of a runtime `List<T>`: its slots, each the address of
/// an element (0 stands for the null address). A missing list (a null list
/// handle) is `None` wherever a list is taken.
pub struct ListVec {
    slots: Vec<usize>,
}

impl View for ListVec {
    type V = Seq<usize>;

    closed spec fn view(&self) -> Seq<usize> {
        self.slots@
    }
}

/// The size of a list; a missing list has none.
pub open spec fn spec_list_size(l: Option<Seq<usize>>) -> int {
    match l {
        Some(s) => s.len() as int,
        None => 0,
    }
}

/// The element at `i`, or the null address for a missing list or an index
/// out of range.
pub open spec fn spec_list_get(l: Option<Seq<usize>>, i: int) -> usize {
    match l {
        Some(s) => if 0 <= i < s.len() {
            s[i]
        } else {
            0
        },
        None => 0,
    }
}

/// The list after `set(i, val)`: unchanged out of range.
pub open spec fn spec_list_set(s: Seq<usize>, i: int, val: usize) -> Seq<usize> {
    if 0 <= i < s.len() {
        s.update(i, val)
    } else {
        s
    }
}

/// The index at which `insert(i, val)` places `val`: `i`, but no further
/// than the end; a negative index inserts nothing (`None`).
pub open spec fn spec_insert_at(s: Seq<usize>, i: int) -> Option<int> {
    if i < 0 {
        None
    } else if i < s.len() {
        Some(i)
    } else {
        Some(s.len() as int)
    }
}

/// The list after `insert(i, val)`.
pub open spec fn spec_list_insert(s: Seq<usize>, i: int, val: usize) -> Seq<usize> {
    match spec_insert_at(s, i) {
        Some(k) => s.insert(k, val),
        None => s,
    }
}

/// The list after `truncate(n)`: its first `n` elements (none for a
/// negative `n`), or all of them.
pub open spec fn spec_list_truncate(s: Seq<usize>, n: int) -> Seq<usize> {
    if n < 0 {
        Seq::empty()
    } else if n < s.len() {
        s.take(n)
    } else {
        s
    }
}

/// The first index from `k` on at which `val` occurs, or -1.
pub open spec fn index_from(s: Seq<usize>, val: usize, k: int) -> int
    decreases s.len() - k,
{
    if k < 0 || k >= s.len() {
        -1
    } else if s[k] == val {
        k
    } else {
        index_from(s, val, k + 1)
    }
}

/// The first index at which `val` occurs, or -1 (also for a missing list).
pub open spec fn spec_list_index_of(l: Option<Seq<usize>>, val: usize) -> int {
    match l {
        Some(s) => index_from(s, val, 0),
        None => -1,
    }
}

/// What `pop` yields and leaves: the last element and the rest, or the
/// null address and the list unchanged when it is empty.
pub open spec fn spec_list_pop(s: Seq<usize>) -> (usize, Seq<usize>) {
    if s.len() == 0 {
        (0, s)
    } else {
        (s.last(), s.drop_last())
    }
}

/// The view of an optional list.
pub open spec fn opt_view(l: Option<&ListVec>) -> Option<Seq<usize>> {
    match l {
        Some(v) => Some(v@),
        None => None,
    }
}

/// A new, empty list.
pub fn __of_list_new() -> (r: ListVec)
    ensures
        r@ == Seq::<usize>::empty(),
{
    ListVec { slots: Vec::new() }
}

/// The number of elements.
pub fn __of_list_size(l: Option<&ListVec>) -> (r: i64)
    requires
        spec_list_size(opt_view(l)) <= i64::MAX,
    ensures
        r == spec_list_size(opt_view(l)),
{
    match l {
        Some(v) => v.slots.len() as i64,
        None => 0,
    }
}

/// 1 when the list has no element (a missing list has none), else 0.
pub fn __of_list_is_empty(l: Option<&ListVec>) -> (r: u8)
    ensures
        r == (if spec_list_size(opt_view(l)) == 0 {
            1u8
        } else {
            0u8
        }),
{
    match l {
        Some(v) => if v.slots.len() == 0 {
            1
        } else {
            0
        },
        None => 1,
    }
}

/// Removes every element.
pub fn __of_list_clear(l: Option<&mut ListVec>)
    ensures
        match l {
            Some(v) => final(v)@ == Seq::<usize>::empty(),
            None => true,
        },
{
    if let Some(v) = l {
        v.slots.clear();
    }
}

/// The element at `i`; the null address out of range.
pub fn __of_list_get(l: Option<&ListVec>, i: i64) -> (r: usize)
    ensures
        r == spec_list_get(opt_view(l), i as int),
{
    let v = match l {
        Some(v) => v,
        None => return 0,
    };
    if i < 0 || (i as u64) >= (v.slots.len() as u64) {
        return 0;
    }
    v.slots[i as usize]
}

/// Replaces the element at `i`; does nothing out of range.
pub fn __of_list_set(l: Option<&mut ListVec>, i: i64, val: usize)
    ensures
        match l {
            Some(v) => final(v)@ == spec_list_set(v@, i as int, val),
            None => true,
        },
{
    let v = match l {
        Some(v) => v,
        None => return,
    };
    if i < 0 || (i as u64) >= (v.slots.len() as u64) {
        return;
    }
    v.slots.set(i as usize, val);
}

/// Appends an element.
pub fn __of_list_push(l: Option<&mut ListVec>, val: usize)
    requires
        match l {
            Some(v) => v@.len() < i64::MAX,
            None => true,
        },
    ensures
        match l {
            Some(v) => final(v)@ == v@.push(val),
            None => true,
        },
{
    if let Some(v) = l {
        v.slots.push(val);
    }
}

/// Removes and yields the last element; the null address when there is
/// none.
pub fn __of_list_pop(l: Option<&mut ListVec>) -> (r: usize)
    ensures
        match l {
            Some(v) => (r, final(v)@) == spec_list_pop(v@),
            None => r == 0,
        },
{
    match l {
        Some(v) => match v.slots.pop() {
            Some(p) => p,
            None => 0,
        },
        None => 0,
    }
}

/// Inserts `val` at `i`, or at the end when `i` is past it; a negative
/// index inserts nothing.
pub fn __of_list_insert(l: Option<&mut ListVec>, i: i64, val: usize)
    requires
        match l {
            Some(v) => v@.len() < i64::MAX,
            None => true,
        },
    ensures
        match l {
            Some(v) => final(v)@ == spec_list_insert(v@, i as int, val),
            None => true,
        },
{
    let v = match l {
        Some(v) => v,
        None => return,
    };
    if i < 0 {
        return;
    }
    let len = v.slots.len();
    let idx: usize = if (i as u64) < (len as u64) {
        i as usize
    } else {
        len
    };
    v.slots.insert(idx, val);
}

/// Removes and yields the element at `i`; out of range nothing changes and
/// the null address comes back.
pub fn __of_list_remove(l: Option<&mut ListVec>, i: i64) -> (r: usize)
    ensures
        r == spec_list_get(
            match l {
                Some(v) => Some(v@),
                None => None,
            },
            i as int,
        ),
        match l {
            Some(v) => final(v)@ == (if 0 <= i < v@.len() {
                v@.remove(i as int)
            } else {
                v@
            }),
            None => true,
        },
{
    let v = match l {
        Some(v) => v,
        None => return 0,
    };
    if i < 0 || (i as u64) >= (v.slots.len() as u64) {
        return 0;
    }
    v.slots.remove(i as usize)
}

/// Keeps the first `n` elements (none for a negative `n`).
pub fn __of_list_truncate(l: Option<&mut ListVec>, n: i64)
    ensures
        match l {
            Some(v) => final(v)@ == spec_list_truncate(v@, n as int),
            None => true,
        },
{
    if let Some(v) = l {
        let len = v.slots.len();
        let keep: usize = if n < 0 {
            0
        } else if (n as u64) < (len as u64) {
            n as usize
        } else {
            len
        };
        v.slots.truncate(keep);
        proof {
            assert(final(v)@ =~= spec_list_truncate(v@, n as int));
        }
    }
}

/// 1 when an element has the address `val` (compared as addresses), else 0.
pub fn __of_list_contains(l: Option<&ListVec>, val: usize) -> (r: u8)
    ensures
        r == (match opt_view(l) {
            Some(s) => if s.contains(val) {
                1u8
            } else {
                0u8
            },
            None => 0u8,
        }),
{
    match l {
        Some(v) => {
            let mut k: usize = 0;
            while k < v.slots.len()
                invariant
                    opt_view(l) == Some(v@),
                    k <= v@.len(),
                    forall|j: int| 0 <= j < k ==> v@[j] != val,
                decreases v@.len() - k,
            {
                if v.slots[k] == val {
                    proof {
                        assert(v@[k as int] == val);
                        assert(v@.contains(val));
                    }
                    return 1;
                }
                k = k + 1;
            }
            0
        },
        None => 0,
    }
}

/// The first index of the address `val`, or -1.
pub fn __of_list_index_of(l: Option<&ListVec>, val: usize) -> (r: i64)
    requires
        spec_list_size(opt_view(l)) <= i64::MAX,
    ensures
        r == spec_list_index_of(opt_view(l), val),
{
    match l {
        Some(v) => {
            let mut k: usize = 0;
            while k < v.slots.len()
                invariant
                    opt_view(l) == Some(v@),
                    k <= v@.len(),
                    v@.len() <= i64::MAX,
                    index_from(v@, val, 0) == index_from(v@, val, k as int),
                decreases v@.len() - k,
            {
                if v.slots[k] == val {
                    return k as i64;
                }
                k = k + 1;
            }
            0 - 1
        },
        None => -1,
    }
}

// ---------------------------------------------------------------------------
// Laws
// ---------------------------------------------------------------------------

/// Reading an index just written gives the value written; every other index
/// reads as before.
pub proof fn law_list_get_after_set(s: Seq<usize>, i: int, val: usize, j: int)
    requires
        0 <= i < s.len(),
    ensures
        spec_list_get(Some(spec_list_set(s, i, val)), i) == val,
        j != i ==> spec_list_get(Some(spec_list_set(s, i, val)), j) == spec_list_get(Some(s), j),
{
}

/// Popping right after a push gives back the value pushed and the list as
/// it was.
pub proof fn law_list_pop_after_push(s: Seq<usize>, val: usize)
    ensures
        spec_list_pop(s.push(val)) == (val, s),
{
    assert(s.push(val).drop_last() =~= s);
}

/// After an insert at `i >= 0` the value sits at `i` (or at the old end when
/// `i` was past it), and the list is one longer.
pub proof fn law_list_get_after_insert(s: Seq<usize>, i: int, val: usize)
    requires
        i >= 0,
    ensures
        spec_list_get(Some(spec_list_insert(s, i, val)), if i < s.len() { i } else { s.len() as int }) == val,
        spec_list_size(Some(spec_list_insert(s, i, val))) == s.len() + 1,
{
}

/// `index_of` finds `val` exactly when `contains` does, and then at its
/// first occurrence.
pub proof fn law_list_index_of_is_first(s: Seq<usize>, val: usize)
    ensures
        spec_list_index_of(Some(s), val) >= 0 <==> s.contains(val),
        spec_list_index_of(Some(s), val) >= 0 ==> ({
            let k = spec_list_index_of(Some(s), val);
            k < s.len() && s[k] == val && forall|j: int| 0 <= j < k ==> s[j] != val
        }),
{
    lemma_index_from(s, val, 0);
    if s.contains(val) {
        let w = choose|w: int| 0 <= w < s.len() && s[w] == val;
        assert(s[w] == val);
    }
}

/// What `index_from` finds from `k`: -1 when `val` does not occur from `k`
/// on, else the first index from `k` on where it does.
proof fn lemma_index_from(s: Seq<usize>, val: usize, k: int)
    requires
        0 <= k,
    ensures
        index_from(s, val, k) == -1 <==> (forall|j: int| k <= j < s.len() ==> s[j] != val),
        index_from(s, val, k) != -1 ==> ({
            let r = index_from(s, val, k);
            k <= r < s.len() && s[r] == val && forall|j: int| k <= j < r ==> s[j] != val
        }),
    decreases s.len() - k,
{
    if k < s.len() && s[k] != val {
        lemma_index_from(s, val, k + 1);
        assert forall|j: int| k <= j < s.len() && (forall|m: int| k + 1 <= m < s.len() ==> s[m] != val) implies s[j] != val by {
            if j > k {
            }
        }
    }
}

/// Truncating to `n` leaves `n` elements (none for a negative `n`), or all
/// of them when there were fewer.
pub proof fn law_list_size_after_truncate(s: Seq<usize>, n: int)
    ensures
        spec_list_size(Some(spec_list_truncate(s, n))) == (if n < 0 {
            0
        } else if n < s.len() {
            n
        } else {
            s.len() as int
        }),
{
}

} // verus!
