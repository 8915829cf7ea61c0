//! The result table: write-once storage for task outputs.
//!
//! Each spawned task gets a stable integer key; its output is written
//! exactly once, when the task's computation completes, and reading the
//! slot before that reports "not ready". The key allocation comes from
//! the `slab` crate and the write-once cell from the `spin` crate; this
//! module declares both to the verifier, names the table's contents, and
//! puts a verified interface on top.

use vstd::prelude::*;

verus! {

#[verifier::external_type_specification]
#[verifier::external_body]
#[verifier::reject_recursive_types(T)]
pub struct ExSlab<T>(slab::Slab<T>);

#[verifier::external_type_specification]
#[verifier::external_body]
pub struct ExSpin(spin::relax::Spin);

#[verifier::external_type_specification]
#[verifier::external_body]
#[verifier::reject_recursive_types(T)]
#[verifier::reject_recursive_types(R)]
pub struct ExOnce<T, R>(spin::once::Once<T, R>);

/// The occupied keys of the table, each mapped to the value its cell was
/// set to, or `None` while the cell is still unset.
pub uninterp spec fn table_contents(s: slab::Slab<spin::Once<u64>>) -> Map<int, Option<u64>>;

/// The model of a table with no entries.
pub open spec fn empty_table() -> Map<int, Option<u64>> {
    Map::empty()
}

/// Relies on `slab::Slab::new`: a new slab holds no entries.
#[verifier::external_body]
fn slab_new() -> (s: slab::Slab<spin::Once<u64>>)
    ensures
        table_contents(s) == empty_table(),
{
    slab::Slab::new()
}

/// Relies on `slab::Slab::insert`, which stores the entry at a vacant key
/// and returns that key, and on `spin::Once::new`, which makes an unset
/// cell.
#[verifier::external_body]
fn slab_insert_empty(s: &mut slab::Slab<spin::Once<u64>>) -> (key: usize)
    ensures
        !table_contents(*old(s)).dom().contains(key as int),
        table_contents(*final(s)) == table_contents(*old(s)).insert(key as int, None),
{
    s.insert(spin::Once::new())
}

/// Relies on `slab::Slab`'s indexing, total at an occupied key, and on
/// `spin::Once::get`: reports the cell's value once set, and nothing
/// before.
#[verifier::external_body]
fn slab_read(s: &slab::Slab<spin::Once<u64>>, key: usize) -> (r: Option<u64>)
    requires
        table_contents(*s).dom().contains(key as int),
    ensures
        r == table_contents(*s)[key as int],
{
    s[key].get().copied()
}

/// Relies on `slab::Slab`'s indexing, total at an occupied key, and on
/// `spin::Once::call_once`: sets an unset cell to the given value; a
/// cell that was already set keeps its first value.
#[verifier::external_body]
fn slab_write_once(s: &mut slab::Slab<spin::Once<u64>>, key: usize, value: u64)
    requires
        table_contents(*old(s)).dom().contains(key as int),
    ensures
        table_contents(*final(s)) == table_contents(*old(s)).insert(
            key as int,
            match table_contents(*old(s))[key as int] {
                None => Some(value),
                Some(first) => Some(first),
            },
        ),
{
    s[key].call_once(|| value);
}

/// A dense table of write-once cells, keyed by the integers that `spawn`
/// hands out.
pub struct ResultTable {
    slots: slab::Slab<spin::Once<u64>>,
}

impl ResultTable {
    pub closed spec fn view(&self) -> Map<int, Option<u64>> {
        table_contents(self.slots)
    }

    pub fn new() -> (t: ResultTable)
        ensures
            t.view() == empty_table(),
    {
        ResultTable { slots: slab_new() }
    }

    /// Reserve a fresh slot, unset, and return its key.
    pub fn allocate(&mut self) -> (key: usize)
        ensures
            !old(self).view().dom().contains(key as int),
            final(self).view() == old(self).view().insert(key as int, None),
    {
        slab_insert_empty(&mut self.slots)
    }

    /// Read a slot: `None` until the owning task's output was recorded.
    pub fn read(&self, key: usize) -> (r: Option<u64>)
        requires
            self.view().dom().contains(key as int),
        ensures
            r == self.view()[key as int],
    {
        slab_read(&self.slots, key)
    }

    /// Record a task's output. The first write sticks; the slot never
    /// changes again.
    pub fn write(&mut self, key: usize, value: u64)
        requires
            old(self).view().dom().contains(key as int),
        ensures
            final(self).view() == old(self).view().insert(
                key as int,
                (match old(self).view()[key as int] {
                    None => Some(value),
                    Some(first) => Some(first),
                }),
            ),
    {
        slab_write_once(&mut self.slots, key, value);
    }
}

} // verus!
