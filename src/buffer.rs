//! The fixed-capacity channel buffers, held in `heapless::Vec`.
use vstd::prelude::*;
use crate::protocol::MAX_SAMPLES;

verus! {

#[verifier::external_type_specification]
#[verifier::external_body]
#[verifier::reject_recursive_types(T)]
pub struct ExHeaplessVec<T, const N: usize>(heapless::Vec<T, N>);

/// One channel's samples, each the raw bit pattern of a 32-bit float.
pub type SampleBuf = heapless::Vec<u32, MAX_SAMPLES>;

/// The samples a buffer holds, oldest first.
pub uninterp spec fn buf_items(v: heapless::Vec<u32, MAX_SAMPLES>) -> Seq<u32>;


/// Relies on `heapless::Vec::new`: a new vector holds nothing.
#[verifier::external_body]
pub(crate) fn buf_new() -> (v: SampleBuf)
    ensures
        buf_items(v) == Seq::<u32>::empty(),
{
    heapless::Vec::new()
}

/// Relies on `heapless::Vec::len` (through `Deref` to a slice): the number of
/// items held, which never exceeds the capacity.
#[verifier::external_body]
pub(crate) fn buf_len(v: &SampleBuf) -> (n: usize)
    ensures
        n == buf_items(*v).len(),
        n <= MAX_SAMPLES,
{
    v.len()
}

/// Relies on `heapless::Vec::push`: below capacity the item is appended;
/// at capacity it is handed back and the vector is left as it was.
#[verifier::external_body]
pub(crate) fn buf_push(v: &mut SampleBuf, x: u32) -> (r: Result<(), u32>)
    ensures
        buf_items(*old(v)).len() < MAX_SAMPLES ==> r is Ok,
        buf_items(*old(v)).len() < MAX_SAMPLES ==> buf_items(*final(v)) == buf_items(*old(v)).push(x),
        buf_items(*old(v)).len() >= MAX_SAMPLES ==> (r matches Err(y) && y == x),
        buf_items(*old(v)).len() >= MAX_SAMPLES ==> buf_items(*final(v)) == buf_items(*old(v)),
{
    v.push(x)
}

/// Relies on `heapless::Vec::clear`: no item remains.
#[verifier::external_body]
pub(crate) fn buf_clear(v: &mut SampleBuf)
    ensures
        buf_items(*final(v)) == Seq::<u32>::empty(),
{
    v.clear()
}

/// Relies on `Clone for heapless::Vec`: the copy holds the same items in the
/// same order.
#[verifier::external_body]
pub(crate) fn buf_clone(v: &SampleBuf) -> (c: SampleBuf)
    ensures
        buf_items(c) == buf_items(*v),
{
    v.clone()
}

/// Relies on indexing a `heapless::Vec` through `Deref` to a slice: the item
/// at `i`.
#[verifier::external_body]
pub(crate) fn buf_get(v: &SampleBuf, i: usize) -> (x: u32)
    requires
        i < buf_items(*v).len(),
    ensures
        x == buf_items(*v)[i as int],
{
    v[i]
}

} // verus!
