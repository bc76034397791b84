//! Iteration over the occupied slots of an area, in ascending order of position.

use super::model::handle_at;
use super::{IdxGen, OptEntry};
use vstd::prelude::*;
use vstd::std_specs::iter::IteratorSpec;

verus! {

/// An occupied slot as shared iteration yields it: its handle and its payload.
#[derive(Debug)]
pub struct RefEntry<'a, T> {
    pub idx_gen: IdxGen,
    pub value: &'a T,
}

/// What shared iteration yields for the occupied slot `i` of `s`.
pub open spec fn entry_at<'a, T>(s: Seq<OptEntry<T>>, i: int) -> RefEntry<'a, T> {
    RefEntry { idx_gen: handle_at(s, i), value: &s[i].opt_value->0 }
}

/// The occupied slots of `s` at position `from` and above, lowest position first.
pub open spec fn entries_from<'a, T>(s: Seq<OptEntry<T>>, from: int) -> Seq<RefEntry<'a, T>>
    decreases s.len() - from,
{
    if from < 0 || from >= s.len() {
        Seq::empty()
    } else if s[from].opt_value is Some {
        seq![entry_at(s, from)] + entries_from(s, from + 1)
    } else {
        entries_from(s, from + 1)
    }
}

/// The occupied slots of `s`, lowest position first.
pub open spec fn entries<'a, T>(s: Seq<OptEntry<T>>) -> Seq<RefEntry<'a, T>> {
    entries_from(s, 0)
}

/// A pass over the occupied slots of an area.
pub struct Iter<'a, T> {
    slots: &'a [OptEntry<T>],
    pos: usize,
}

impl<'a, T> Iter<'a, T> {
    /// The entries that the pass has yet to yield, in the order in which it yields them.
    pub closed spec fn upcoming(&self) -> Seq<RefEntry<'a, T>> {
        entries_from(self.slots@, self.pos as int)
    }

    /// A pass over `slots`, taken as the whole table of an area.
    pub(crate) fn over(slots: &'a [OptEntry<T>]) -> (it: Self)
        ensures
            it.upcoming() == entries::<T>(slots@),
            IteratorSpec::decrease(&it) is Some,
    {
        Iter { slots, pos: 0 }
    }
}

impl<'a, T> Iterator for Iter<'a, T> {
    type Item = RefEntry<'a, T>;

    /// Yields the first of the upcoming entries and keeps the rest, or nothing once none
    /// is left.
    fn next(&mut self) -> (ret: Option<RefEntry<'a, T>>) {
        while self.pos < self.slots.len()
            invariant
                self.slots == old(self).slots,
                old(self).pos <= self.pos,
                entries_from::<T>(self.slots@, self.pos as int) == entries_from::<T>(
                    old(self).slots@,
                    old(self).pos as int,
                ),
            decreases self.slots@.len() - self.pos,
        {
            let idx = self.pos;
            let entry = &self.slots[idx];
            self.pos = idx + 1;
            if let Some(value) = entry.opt_value.as_ref() {
                assert(old(self).upcoming().drop_first() =~= self.upcoming());
                return Some(RefEntry { idx_gen: IdxGen { idx, gen: entry.gen }, value });
            }
        }
        None
    }
}

/// A shared pass yields its upcoming entries one by one and then ends.
impl<'a, T> vstd::std_specs::iter::IteratorSpecImpl for Iter<'a, T> {
    open spec fn obeys_prophetic_iter_laws(&self) -> bool {
        true
    }

    open spec fn remaining(&self) -> Seq<Self::Item> {
        self.upcoming()
    }

    open spec fn will_return_none(&self) -> bool {
        true
    }

    closed spec fn decrease(&self) -> Option<nat> {
        Some((self.slots@.len() - self.pos) as nat)
    }

    open spec fn initial_value_relation(&self, init: &Self) -> bool {
        self.upcoming() == init.upcoming()
    }

    open spec fn peek(&self, index: int) -> Option<Self::Item> {
        if 0 <= index < self.upcoming().len() {
            Some(self.upcoming()[index])
        } else {
            None
        }
    }
}

/// An occupied slot as exclusive iteration yields it: its handle and access to its payload.
#[derive(Debug)]
pub struct MutEntry<'a, T> {
    pub idx_gen: IdxGen,
    pub value: &'a mut T,
}

/// `i` is the lowest occupied position of `s`.
pub open spec fn is_first_occupied<T>(s: Seq<OptEntry<T>>, i: int) -> bool {
    &&& 0 <= i < s.len()
    &&& s[i].opt_value is Some
    &&& forall|j: int| 0 <= j < i ==> (#[trigger] s[j]).opt_value is None
}

/// A pass over the occupied slots of an area that hands out each payload for writing.
pub struct IterMut<'a, T> {
    rest: Option<&'a mut [OptEntry<T>]>,
    pos: usize,
}

impl<'a, T> IterMut<'a, T> {
    #[verifier::type_invariant]
    spec fn positions_fit(self) -> bool {
        self.pos + self.pending().len() <= usize::MAX
    }

    /// The slots that the pass has yet to visit, as they are now.
    pub closed spec fn pending(&self) -> Seq<OptEntry<T>> {
        match self.rest {
            Some(slots) => slots@,
            None => Seq::empty(),
        }
    }

    /// The position in the table of the first pending slot.
    pub closed spec fn offset(&self) -> int {
        self.pos as int
    }

    /// The borrow of the pending slots that the pass holds.
    pub closed spec fn lent(&self) -> Option<&'a mut [OptEntry<T>]> {
        self.rest
    }

    /// A pass over `slots`, taken as the whole table of an area.
    pub(crate) fn over(slots: &'a mut [OptEntry<T>]) -> (it: Self)
        ensures
            it.offset() == 0,
            it.pending() == old(slots)@,
            it.lent() is Some,
            final(it.lent()->0)@ == final(slots)@,
    {
        assert(slots@.len() <= usize::MAX) by {
            assert(slots@.len() == slots.len());
        }
        IterMut { rest: Some(slots), pos: 0 }
    }
}

impl<'a, T> Iterator for IterMut<'a, T> {
    type Item = MutEntry<'a, T>;

    /// Yields the lowest occupied slot among the pending ones and passes over it, or passes
    /// over all of them where none is occupied. The slots passed over end as they are, but
    /// for the payload of the entry, which ends as the holder of the entry leaves it.
    fn next(&mut self) -> (ret: Option<MutEntry<'a, T>>)
        ensures
            match ret {
                Some(entry) => {
                    let k = entry.idx_gen.idx - old(self).offset();
                    &&& is_first_occupied(old(self).pending(), k)
                    &&& entry.idx_gen.gen == old(self).pending()[k].gen
                    &&& *entry.value == old(self).pending()[k].opt_value->0
                    &&& final(self).offset() == entry.idx_gen.idx + 1
                    &&& final(self).pending() == old(self).pending().skip(k + 1)
                    &&& old(self).lent() is Some
                    &&& final(self).lent() is Some
                    &&& final(old(self).lent()->0)@ == old(self).pending().take(k).push(
                        OptEntry { gen: entry.idx_gen.gen, opt_value: Some(*final(entry.value)) },
                    ) + final(final(self).lent()->0)@
                },
                None => {
                    &&& forall|i: int|
                        0 <= i < old(self).pending().len() ==> (#[trigger] old(self).pending()[i])
                            .opt_value is None
                    &&& final(self).pending().len() == 0
                    &&& final(self).offset() == old(self).offset() + old(self).pending().len()
                    &&& final(self).lent() is None
                    &&& old(self).lent() matches Some(slots) ==> final(slots)@ == old(self).pending()
                },
            },
    {
        proof {
            use_type_invariant(&*self);
        }
        let mut taken: Option<&'a mut [OptEntry<T>]> = None;
        core::mem::swap(&mut self.rest, &mut taken);
        match taken {
            None => None,
            Some(lent) => {
                let mut slots = lent;
                loop
                    invariant
                        self.rest is None,
                        old(self).pos <= self.pos,
                        self.pos + slots@.len() == old(self).pos + old(self).pending().len(),
                        self.pos + slots@.len() <= usize::MAX,
                        slots@ == old(self).pending().skip(self.pos - old(self).pos),
                        forall|j: int|
                            0 <= j < self.pos - old(self).pos ==> (#[trigger] old(
                                self,
                            ).pending()[j]).opt_value is None,
                        final(old(self).rest->0)@ == old(self).pending().take(
                            self.pos - old(self).pos,
                        ) + final(slots)@,
                    decreases slots@.len(),
                {
                    if slots.len() == 0 {
                        return None;
                    }
                    let (head, tail) = slots.split_at_mut(1);
                    let idx = self.pos;
                    self.pos = idx + 1;
                    let first = &mut head[0];
                    let gen = first.gen;
                    match first.opt_value.as_mut() {
                        Some(value) => {
                            self.rest = Some(tail);
                            return Some(MutEntry { idx_gen: IdxGen { idx, gen }, value });
                        },
                        None => {
                            slots = tail;
                        },
                    }
                }
            },
        }
    }
}

/// An exclusive pass states what it yields on `next` itself: its entries hold borrows,
/// whose outcome a sequence of entries known in advance does not tell.
impl<'a, T> vstd::std_specs::iter::IteratorSpecImpl for IterMut<'a, T> {
    open spec fn obeys_prophetic_iter_laws(&self) -> bool {
        false
    }

    open spec fn remaining(&self) -> Seq<Self::Item> {
        Seq::empty()
    }

    open spec fn will_return_none(&self) -> bool {
        true
    }

    open spec fn decrease(&self) -> Option<nat> {
        None
    }

    open spec fn initial_value_relation(&self, init: &Self) -> bool {
        true
    }

    open spec fn peek(&self, index: int) -> Option<Self::Item> {
        None
    }
}

} // verus!
