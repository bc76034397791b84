//! The slot table as the contracts see it: what a handle names, which slot the next
//! insertion takes, and what each operation leaves behind.

use super::{IdxGen, OptEntry};
use vstd::prelude::*;

verus! {

/// `s` is a table that an area can hold: every position fits a handle.
pub open spec fn fits<T>(s: Seq<OptEntry<T>>) -> bool {
    s.len() <= usize::MAX
}

/// `h` names a payload of `s`: its slot exists, carries the handle's generation and is
/// occupied.
pub open spec fn live<T>(s: Seq<OptEntry<T>>, h: IdxGen) -> bool {
    &&& h.idx < s.len()
    &&& s[h.idx as int].gen == h.gen
    &&& s[h.idx as int].opt_value is Some
}

/// The payload that `h` names in `s`, if it names one.
pub open spec fn lookup<T>(s: Seq<OptEntry<T>>, h: IdxGen) -> Option<T> {
    if live(s, h) {
        s[h.idx as int].opt_value
    } else {
        None
    }
}

/// The handle under which slot `i` of `s` is reachable while it is occupied.
pub open spec fn handle_at<T>(s: Seq<OptEntry<T>>, i: int) -> IdxGen {
    IdxGen { idx: i as usize, gen: s[i].gen }
}

/// `i` is the lowest vacant position of `s`, or its length where every slot is occupied.
pub open spec fn is_first_vacant<T>(s: Seq<OptEntry<T>>, i: int) -> bool {
    &&& 0 <= i <= s.len()
    &&& i < s.len() ==> s[i].opt_value is None
    &&& forall|j: int| 0 <= j < i ==> (#[trigger] s[j]).opt_value is Some
}

/// The position that the next insertion takes.
pub open spec fn first_vacant<T>(s: Seq<OptEntry<T>>) -> int {
    choose|i: int| is_first_vacant(s, i)
}

/// The generation under which an insertion at position `i` of `s` issues its handle: one
/// above the slot's own where the slot exists, zero for a new slot.
pub open spec fn generation_after<T>(s: Seq<OptEntry<T>>, i: int) -> usize {
    if 0 <= i < s.len() {
        (s[i].gen + 1) as usize
    } else {
        0
    }
}

/// The table after `value` was inserted at position `i` of `s`: into the slot there, or
/// into a new slot at the end where `s` has no such position.
pub open spec fn filled<T>(s: Seq<OptEntry<T>>, i: int, value: T) -> Seq<OptEntry<T>> {
    let slot = OptEntry { gen: generation_after(s, i), opt_value: Some(value) };
    if 0 <= i < s.len() {
        s.update(i, slot)
    } else {
        s.push(slot)
    }
}

/// The next insertion does not exhaust the generations of the slot that it reuses.
pub open spec fn can_add<T>(s: Seq<OptEntry<T>>) -> bool {
    forall|i: int| #[trigger] is_first_vacant(s, i) && i < s.len() ==> s[i].gen < usize::MAX
}

/// The handle that the next insertion returns.
pub open spec fn issued<T>(s: Seq<OptEntry<T>>) -> IdxGen {
    IdxGen { idx: first_vacant(s) as usize, gen: generation_after(s, first_vacant(s)) }
}

/// The table after `value` was inserted.
pub open spec fn after_add<T>(s: Seq<OptEntry<T>>, value: T) -> Seq<OptEntry<T>> {
    filled(s, first_vacant(s), value)
}

/// The table after `h` was removed: its slot is vacated and keeps its generation; a handle
/// that names nothing changes nothing.
pub open spec fn after_remove<T>(s: Seq<OptEntry<T>>, h: IdxGen) -> Seq<OptEntry<T>> {
    if live(s, h) {
        s.update(h.idx as int, OptEntry { gen: h.gen, opt_value: None })
    } else {
        s
    }
}

/// The table after the payload that `h` names was replaced by `value`; a handle that names
/// nothing changes nothing.
pub open spec fn after_write<T>(s: Seq<OptEntry<T>>, h: IdxGen, value: T) -> Seq<OptEntry<T>> {
    if live(s, h) {
        s.update(h.idx as int, OptEntry { gen: h.gen, opt_value: Some(value) })
    } else {
        s
    }
}

proof fn lemma_vacant_exists<T>(s: Seq<OptEntry<T>>, n: int)
    requires
        0 <= n <= s.len(),
        forall|j: int| 0 <= j < n ==> (#[trigger] s[j]).opt_value is Some,
    ensures
        exists|i: int| is_first_vacant(s, i),
    decreases s.len() - n,
{
    if n < s.len() && s[n].opt_value is Some {
        lemma_vacant_exists(s, n + 1);
    } else {
        assert(is_first_vacant(s, n));
    }
}

/// Every table has a lowest vacant position.
pub proof fn lemma_first_vacant<T>(s: Seq<OptEntry<T>>)
    ensures
        is_first_vacant(s, first_vacant(s)),
{
    lemma_vacant_exists(s, 0);
}

/// The lowest vacant position is unique.
pub proof fn lemma_first_vacant_unique<T>(s: Seq<OptEntry<T>>, i: int)
    requires
        is_first_vacant(s, i),
    ensures
        first_vacant(s) == i,
{
    lemma_first_vacant(s);
    let k = first_vacant(s);
    if k < i {
        assert(s[k].opt_value is Some);
    } else if i < k {
        assert(s[i].opt_value is Some);
    }
}

} // verus!
