use vstd::prelude::*;

verus! {

/// A runtime byte buffer: a fixed number of bytes, zeroed when made.
pub struct Buffer {
    data: Vec<u8>,
}

impl View for Buffer {
    type V = Seq<u8>;

    closed spec fn view(&self) -> Seq<u8> {
        self.data@
    }
}

/// The largest size that a buffer can be laid out with: its size rounded
/// up to the 8-byte alignment must stay within `isize::MAX`.
pub open spec fn max_buffer_size() -> int {
    isize::MAX - 7
}

/// A zeroed buffer of `size` bytes, or `None` when no buffer of that size
/// can be laid out.
pub fn __of_buffer_alloc(size: u64) -> (r: Option<Buffer>)
    ensures
        r is Some <==> size <= max_buffer_size(),
        r matches Some(b) ==> b@ == Seq::new(size as nat, |_i: int| 0u8),
{
    if size > (isize::MAX as u64) - 7 {
        return None;
    }
    let data = vec![0u8; size as usize];
    proof {
        assert(data@ =~= Seq::new(size as nat, |_i: int| 0u8));
    }
    Some(Buffer { data })
}

/// The byte at `i` of a possibly missing buffer: 0 for a missing buffer or
/// an index out of range.
pub open spec fn spec_buffer_get(b: Option<Seq<u8>>, i: int) -> u8 {
    match b {
        Some(s) => if 0 <= i < s.len() {
            s[i]
        } else {
            0
        },
        None => 0,
    }
}

/// The byte at `i`; 0 out of range.
pub fn __of_buffer_get(buf: Option<&Buffer>, i: u64) -> (r: u8)
    ensures
        r == spec_buffer_get(
            match buf {
                Some(b) => Some(b@),
                None => None,
            },
            i as int,
        ),
{
    let b = match buf {
        Some(b) => b,
        None => return 0,
    };
    if i >= b.data.len() as u64 {
        return 0;
    }
    b.data[i as usize]
}

/// The bytes after writing `v` at `i`: unchanged out of range.
pub open spec fn spec_buffer_set(s: Seq<u8>, i: int, v: u8) -> Seq<u8> {
    if 0 <= i < s.len() {
        s.update(i, v)
    } else {
        s
    }
}

/// Writes the byte `v` at `i`; does nothing out of range.
pub fn __of_buffer_set(buf: Option<&mut Buffer>, i: u64, v: u8)
    ensures
        match buf {
            Some(b) => final(b)@ == spec_buffer_set(b@, i as int, v),
            None => true,
        },
{
    let b = match buf {
        Some(b) => b,
        None => return,
    };
    if i >= b.data.len() as u64 {
        return;
    }
    b.data.set(i as usize, v);
}

/// Reading a byte just written gives it back; every other byte reads as
/// before; a write out of range changes nothing.
pub proof fn law_buffer_get_after_set(s: Seq<u8>, i: int, v: u8, j: int)
    ensures
        0 <= i < s.len() ==> spec_buffer_get(Some(spec_buffer_set(s, i, v)), i) == v,
        j != i ==> spec_buffer_get(Some(spec_buffer_set(s, i, v)), j) == spec_buffer_get(Some(s), j),
{
}

} // verus!
