//! A generational area: a vector-like table of slots whose holes are reused and whose
//! handles are checked on every access.
//!
//! Each slot carries a generation that rises whenever the slot is filled again, and a
//! handle records the generation it was issued for. A handle whose payload was removed
//! therefore never reaches a later payload of the same slot. The table holds as many slots
//! as were ever occupied at once and never shrinks.

pub mod iter;
pub mod laws;
pub mod model;

pub use iter::{Iter, IterMut, MutEntry, RefEntry};

use iter::entries;
use model::{
    after_add, after_remove, after_write, can_add, filled, fits, generation_after,
    is_first_vacant, issued, lemma_first_vacant_unique, lookup,
};
use vstd::prelude::*;
use vstd::std_specs::iter::IteratorSpec;

verus! {

/// A handle: the position of a slot and the generation it was issued for.
#[derive(Debug, Clone, Copy, PartialEq, Eq, Hash, Structural)]
pub struct IdxGen {
    pub idx: usize,
    pub gen: usize,
}

/// One slot of the table: its current generation and, while occupied, its payload.
#[derive(Debug)]
pub struct OptEntry<T> {
    pub gen: usize,
    pub opt_value: Option<T>,
}

/// The area. Its view is the table of its slots, in order.
#[derive(Debug)]
pub struct Area<T> {
    data: Vec<OptEntry<T>>,
}

impl<T> View for Area<T> {
    type V = Seq<OptEntry<T>>;

    closed spec fn view(&self) -> Seq<OptEntry<T>> {
        self.data@
    }
}

impl<T> Default for Area<T> {
    fn default() -> (area: Self)
        ensures
            area@ == Seq::<OptEntry<T>>::empty(),
    {
        Area { data: Vec::new() }
    }
}

impl<T> Area<T> {
    /// The table of an area is one that an area can hold.
    pub proof fn lemma_table_fits(&self)
        ensures
            fits(self@),
    {
        assert(self.data@.len() == self.data.len());
    }

    /// The lowest vacant position, or the number of slots where none is vacant.
    fn first_vacant(&self) -> (idx: usize)
        ensures
            is_first_vacant(self@, idx as int),
    {
        let mut idx: usize = 0;
        while idx < self.data.len() && self.data[idx].opt_value.is_some()
            invariant
                idx <= self.data@.len(),
                forall|j: int| 0 <= j < idx ==> (#[trigger] self.data@[j]).opt_value is Some,
            decreases self.data@.len() - idx,
        {
            idx += 1;
        }
        idx
    }

    /// Whether the next insertion is possible: whether the slot that it would reuse, if
    /// any, has a generation left.
    pub fn can_add(&self) -> (possible: bool)
        ensures
            possible == can_add(self@),
    {
        let idx = self.first_vacant();
        proof {
            lemma_first_vacant_unique(self@, idx as int);
            assert forall|i: int| #[trigger] is_first_vacant(self@, i) implies i == idx by {
                lemma_first_vacant_unique(self@, i);
            }
        }
        idx >= self.data.len() || self.data[idx].gen < usize::MAX
    }

    /// Stores `value` in the lowest vacant slot, raising that slot's generation by one, or
    /// in a new slot of generation zero at the end when no slot is vacant. The handle
    /// returned names `value` from then on.
    ///
    /// A slot whose generation stands at `usize::MAX` cannot be filled again: the caller
    /// sees to it that the lowest vacant slot is no such slot, which [`Area::can_add`]
    /// tells.
    pub fn add(&mut self, value: T) -> (idx_gen: IdxGen)
        requires
            can_add(old(self)@),
        ensures
            is_first_vacant(old(self)@, idx_gen.idx as int),
            idx_gen.gen == generation_after(old(self)@, idx_gen.idx as int),
            final(self)@ == filled(old(self)@, idx_gen.idx as int, value),
            idx_gen == issued(old(self)@),
            final(self)@ == after_add(old(self)@, value),
    {
        let idx = self.first_vacant();
        proof {
            lemma_first_vacant_unique(self@, idx as int);
        }
        if idx < self.data.len() {
            let gen: usize = self.data[idx].gen + 1;
            self.data[idx] = OptEntry { gen, opt_value: Some(value) };
            IdxGen { idx, gen }
        } else {
            let gen: usize = 0;
            self.data.push(OptEntry { gen, opt_value: Some(value) });
            IdxGen { idx, gen }
        }
    }

    /// The payload that `idx_gen` names, if it names one.
    pub fn get(&self, idx_gen: IdxGen) -> (found: Option<&T>)
        ensures
            match found {
                Some(value) => lookup(self@, idx_gen) == Some(*value),
                None => lookup(self@, idx_gen) is None,
            },
    {
        if idx_gen.idx >= self.data.len() {
            return None;
        }
        let opt_entry = &self.data[idx_gen.idx];
        if opt_entry.gen != idx_gen.gen {
            return None;
        }
        opt_entry.opt_value.as_ref()
    }

    /// Exclusive access to the payload that `idx_gen` names, if it names one. What the
    /// caller leaves behind the reference is the slot's payload afterwards; nothing else
    /// changes.
    pub fn get_mut(&mut self, idx_gen: IdxGen) -> (found: Option<&mut T>)
        ensures
            match found {
                Some(value) => {
                    &&& lookup(old(self)@, idx_gen) == Some(*value)
                    &&& final(self)@ == after_write(old(self)@, idx_gen, *final(value))
                },
                None => {
                    &&& lookup(old(self)@, idx_gen) is None
                    &&& final(self)@ == old(self)@
                },
            },
    {
        if idx_gen.idx >= self.data.len() {
            return None;
        }
        let opt_entry = &mut self.data[idx_gen.idx];
        if opt_entry.gen != idx_gen.gen {
            return None;
        }
        opt_entry.opt_value.as_mut()
    }

    /// Takes the payload that `idx_gen` names out of its slot, if it names one. The slot
    /// keeps its generation and becomes vacant.
    pub fn remove(&mut self, idx_gen: IdxGen) -> (taken: Option<T>)
        ensures
            taken == lookup(old(self)@, idx_gen),
            final(self)@ == after_remove(old(self)@, idx_gen),
    {
        if idx_gen.idx >= self.data.len() {
            return None;
        }
        let opt_entry = &mut self.data[idx_gen.idx];
        if opt_entry.gen != idx_gen.gen {
            return None;
        }
        opt_entry.opt_value.take()
    }

    /// A pass over the occupied slots, lowest position first, that yields each slot's
    /// handle and its payload.
    pub fn iter(&self) -> (it: Iter<'_, T>)
        ensures
            it.upcoming() == entries::<T>(self@),
            IteratorSpec::decrease(&it) is Some,
    {
        Iter::over(self.data.as_slice())
    }

    /// A pass over the occupied slots, lowest position first, that yields each slot's
    /// handle and exclusive access to its payload. What the pass and its entries leave in
    /// the slots is the table afterwards.
    pub fn iter_mut(&mut self) -> (it: IterMut<'_, T>)
        ensures
            it.offset() == 0,
            it.pending() == old(self)@,
            it.lent() is Some,
            final(it.lent()->0)@ == final(self)@,
    {
        IterMut::over(self.data.as_mut_slice())
    }
}

} // verus!
