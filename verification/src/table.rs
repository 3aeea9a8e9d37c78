//! The resource table: a registry mapping integer handles to owned objects.
//!
//! Each kind of managed object has its own table. Handles are allocated by a
//! per-table counter starting above zero (zero is reserved), increase
//! monotonically, are never reused, and entries are never removed while the
//! process lives. The table exclusively owns the stored objects; callers
//! address them by handle.

use vstd::prelude::*;

verus! {

/// Failure of a table lookup: the handle was never issued by `allocate`.
/// A well-behaved consumer only presents handles this table produced, so
/// this signals a protocol violation by the caller.
#[derive(Clone, Copy, PartialEq, Eq, Structural, Debug)]
pub enum TableError {
    NotFound,
}

/// A registry of owned objects addressed by `u32` handles.
///
/// The view is the sequence of stored objects in allocation order; the
/// object allocated `k`-th (counting from zero) has handle `k + 1`.
pub struct ResourceTable<T> {
    entries: Vec<T>,
}

impl<T> View for ResourceTable<T> {
    type V = Seq<T>;

    closed spec fn view(&self) -> Seq<T> {
        self.entries@
    }
}

impl<T> ResourceTable<T> {
    /// Whether `h` is a handle this table has issued.
    pub open spec fn contains_handle(self, h: u32) -> bool {
        1 <= h as int <= self@.len()
    }

    /// The object stored under handle `h`.
    pub open spec fn at(self, h: u32) -> T
        recommends
            self.contains_handle(h),
    {
        self@[h as int - 1]
    }

    /// An empty table.
    pub fn new() -> (t: Self)
        ensures
            t@ == Seq::<T>::empty(),
    {
        ResourceTable { entries: Vec::new() }
    }

    /// How many objects the table holds.
    pub fn len(&self) -> (n: usize)
        ensures
            n == self@.len(),
    {
        self.entries.len()
    }

    /// Stores `obj` under the next free handle and returns that handle.
    /// Never fails; the bound on the entry count is a machine limit of the
    /// 32-bit handle space.
    pub fn allocate(&mut self, obj: T) -> (h: u32)
        requires
            old(self)@.len() < u32::MAX as int,
        ensures
            final(self)@ == old(self)@.push(obj),
            h as int == old(self)@.len() + 1,
            h >= 1,
            !old(self).contains_handle(h),
            final(self).contains_handle(h),
            final(self).at(h) == obj,
    {
        self.entries.push(obj);
        self.entries.len() as u32
    }

    /// Whether `h` is a handle this table has issued.
    pub fn contains(&self, h: u32) -> (b: bool)
        ensures
            b == self.contains_handle(h),
    {
        1 <= h && h as usize <= self.entries.len()
    }

    /// Looks up the object stored under `h`; fails with `NotFound` for any
    /// handle `allocate` never issued.
    pub fn get(&self, h: u32) -> (r: Result<&T, TableError>)
        ensures
            match r {
                Ok(v) => self.contains_handle(h) && *v == self.at(h),
                Err(e) => e == TableError::NotFound && !self.contains_handle(h),
            },
    {
        if 1 <= h && h as usize <= self.entries.len() {
            Ok(&self.entries[(h - 1) as usize])
        } else {
            Err(TableError::NotFound)
        }
    }

    /// Swaps the object stored under `h` for `obj`, returning the previous
    /// object. Used to update an entry in place; the handle keeps pointing
    /// at the slot.
    pub fn replace(&mut self, h: u32, obj: T) -> (prev: T)
        requires
            old(self).contains_handle(h),
        ensures
            prev == old(self).at(h),
            final(self)@ == old(self)@.update(h as int - 1, obj),
            final(self)@.len() == old(self)@.len(),
    {
        let i = (h - 1) as usize;
        let prev = self.entries.remove(i);
        self.entries.insert(i, obj);
        proof {
            assert(self@ =~= old(self)@.update(h as int - 1, obj));
        }
        prev
    }
}

/// The handles that `k` consecutive allocations yield, starting from a table
/// holding `n0` objects.
pub open spec fn handles_from(n0: int, k: nat) -> Seq<int> {
    Seq::new(k, |i: int| n0 + 1 + i)
}

/// Law: consecutive allocations yield pairwise-distinct handles. Together
/// with `allocate`'s postcondition (the `k`-th allocation on a table of `n0`
/// objects returns handle `n0 + 1 + k`), any number of allocations yields
/// that many distinct handles.
pub proof fn lemma_allocated_handles_distinct(n0: int, k: nat)
    ensures
        forall|p: int, q: int|
            0 <= p < q < k ==> handles_from(n0, k)[p] != handles_from(n0, k)[q],
{
}

} // verus!
