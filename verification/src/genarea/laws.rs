//! What holds of an area over its whole history: a handle is good from its insertion to
//! its removal and never again, vacated slots are reused lowest first, and iteration
//! visits exactly the handles that are live.

use super::iter::{entries, entries_from, entry_at, is_first_occupied, RefEntry};
use super::model::{
    after_add, after_remove, after_write, can_add, first_vacant, fits, is_first_vacant, issued,
    lemma_first_vacant, lemma_first_vacant_unique, live, lookup,
};
use super::{IdxGen, OptEntry};
use vstd::prelude::*;

verus! {

/// One step in the history of a table.
pub enum Op<T> {
    /// An insertion of a payload.
    Add(T),
    /// A removal through a handle.
    Remove(IdxGen),
    /// A payload written through the exclusive access that a handle gave.
    Write(IdxGen, T),
}

/// `op` removes through `h`.
pub open spec fn removes<T>(op: Op<T>, h: IdxGen) -> bool {
    op == Op::<T>::Remove(h)
}

/// `op` writes through `h`.
pub open spec fn writes<T>(op: Op<T>, h: IdxGen) -> bool {
    op matches Op::Write(through, _) && through == h
}

/// The table that `op` leaves of `s`.
pub open spec fn apply<T>(s: Seq<OptEntry<T>>, op: Op<T>) -> Seq<OptEntry<T>> {
    match op {
        Op::Add(value) => after_add(s, value),
        Op::Remove(h) => after_remove(s, h),
        Op::Write(h, value) => after_write(s, h, value),
    }
}

/// The table that the steps `ops`, taken in order, leave of `s`.
pub open spec fn run<T>(s: Seq<OptEntry<T>>, ops: Seq<Op<T>>) -> Seq<OptEntry<T>>
    decreases ops.len(),
{
    if ops.len() == 0 {
        s
    } else {
        run(apply(s, ops.first()), ops.drop_first())
    }
}

/// No insertion among the steps `ops`, taken in order from `s`, exhausts the generations
/// of the slot that it reuses.
pub open spec fn admits<T>(s: Seq<OptEntry<T>>, ops: Seq<Op<T>>) -> bool
    decreases ops.len(),
{
    ops.len() > 0 ==> {
        &&& ops.first() is Add ==> can_add(s)
        &&& admits(apply(s, ops.first()), ops.drop_first())
    }
}

/// `es` lists the live handles of `s` at position `from` and above: each entry is such a
/// handle with the payload it names, positions rise strictly from entry to entry, and no
/// such handle is missing.
pub open spec fn lists_live_handles<'a, T>(
    es: Seq<RefEntry<'a, T>>,
    s: Seq<OptEntry<T>>,
    from: int,
) -> bool {
    &&& forall|k: int|
        0 <= k < es.len() ==> {
            let e = #[trigger] es[k];
            &&& from <= e.idx_gen.idx
            &&& lookup(s, e.idx_gen) == Some(*e.value)
        }
    &&& forall|j: int, k: int|
        0 <= j < k < es.len() ==> (#[trigger] es[j]).idx_gen.idx < (#[trigger] es[k]).idx_gen.idx
    &&& forall|h: IdxGen|
        #[trigger] live(s, h) && from <= h.idx ==> exists|k: int|
            0 <= k < es.len() && (#[trigger] es[k]).idx_gen == h
}

/// The payload that `h` named is gone for good: its slot has moved past the handle's
/// generation, or stands vacant at it.
spec fn retired<T>(s: Seq<OptEntry<T>>, h: IdxGen) -> bool {
    &&& h.idx < s.len()
    &&& h.gen <= s[h.idx as int].gen
    &&& h.gen == s[h.idx as int].gen ==> s[h.idx as int].opt_value is None
}

proof fn lemma_step_keeps_live<T>(s: Seq<OptEntry<T>>, h: IdxGen, op: Op<T>)
    requires
        live(s, h),
        !removes(op, h),
    ensures
        live(apply(s, op), h),
        !writes(op, h) ==> lookup(apply(s, op), h) == lookup(s, h),
{
    lemma_first_vacant(s);
}

proof fn lemma_step_keeps_retired<T>(s: Seq<OptEntry<T>>, h: IdxGen, op: Op<T>)
    requires
        retired(s, h),
        op is Add ==> can_add(s),
    ensures
        retired(apply(s, op), h),
{
    lemma_first_vacant(s);
}

proof fn lemma_retired_stays<T>(s: Seq<OptEntry<T>>, h: IdxGen, ops: Seq<Op<T>>)
    requires
        retired(s, h),
        admits(s, ops),
    ensures
        retired(run(s, ops), h),
    decreases ops.len(),
{
    if ops.len() > 0 {
        lemma_step_keeps_retired(s, h, ops.first());
        lemma_retired_stays(apply(s, ops.first()), h, ops.drop_first());
    }
}

/// The table never contracts, and no slot's generation ever falls: whatever the history,
/// every slot is still there afterwards, at its generation or a later one.
pub proof fn lemma_slots_stay_and_generations_rise<T>(s: Seq<OptEntry<T>>, ops: Seq<Op<T>>)
    requires
        admits(s, ops),
    ensures
        s.len() <= run(s, ops).len(),
        forall|i: int| 0 <= i < s.len() ==> s[i].gen <= (#[trigger] run(s, ops)[i]).gen,
    decreases ops.len(),
{
    if ops.len() > 0 {
        lemma_first_vacant(s);
        lemma_slots_stay_and_generations_rise(apply(s, ops.first()), ops.drop_first());
    }
}

/// The handle that an insertion returns names the inserted payload and named nothing
/// before; what every other handle names stays as it was.
pub proof fn lemma_issued_handle_is_live<T>(s: Seq<OptEntry<T>>, value: T)
    requires
        fits(after_add(s, value)),
    ensures
        lookup(s, issued(s)) is None,
        lookup(after_add(s, value), issued(s)) == Some(value),
        forall|h: IdxGen| h != issued(s) ==> lookup(after_add(s, value), h) == lookup(s, h),
{
    lemma_first_vacant(s);
}

/// A live handle stays live through every history that does not remove through it, and
/// names the same payload as long as nothing is written through it.
pub proof fn lemma_live_until_removed<T>(s: Seq<OptEntry<T>>, h: IdxGen, ops: Seq<Op<T>>)
    requires
        live(s, h),
        forall|k: int| 0 <= k < ops.len() ==> !removes(#[trigger] ops[k], h),
    ensures
        live(run(s, ops), h),
        (forall|k: int| 0 <= k < ops.len() ==> !writes(#[trigger] ops[k], h)) ==> lookup(
            run(s, ops),
            h,
        ) == lookup(s, h),
    decreases ops.len(),
{
    if ops.len() > 0 {
        let rest = ops.drop_first();
        assert(ops.first() == ops[0]);
        assert forall|k: int| 0 <= k < rest.len() implies rest[k] == ops[k + 1] by {}
        lemma_step_keeps_live(s, h, ops.first());
        lemma_live_until_removed(apply(s, ops.first()), h, rest);
    }
}

/// Once the payload that a handle names is removed, the handle names nothing, whatever
/// history follows: a lookup, a request for exclusive access and a second removal all
/// come back empty, after any number of further insertions.
pub proof fn lemma_removed_stays_stale<T>(s: Seq<OptEntry<T>>, h: IdxGen, ops: Seq<Op<T>>)
    requires
        live(s, h),
        admits(after_remove(s, h), ops),
    ensures
        lookup(after_remove(s, h), h) is None,
        lookup(run(after_remove(s, h), ops), h) is None,
{
    lemma_retired_stays(after_remove(s, h), h, ops);
}

/// The handle that an insertion returns is live from the insertion up to its removal,
/// through every history in between that does not remove through it, and names nothing
/// ever after, whatever history follows.
pub proof fn lemma_handle_lives_from_add_to_remove<T>(
    s: Seq<OptEntry<T>>,
    value: T,
    before: Seq<Op<T>>,
    after: Seq<Op<T>>,
)
    requires
        fits(after_add(s, value)),
        forall|k: int| 0 <= k < before.len() ==> !removes(#[trigger] before[k], issued(s)),
        admits(after_remove(run(after_add(s, value), before), issued(s)), after),
    ensures
        live(run(after_add(s, value), before), issued(s)),
        lookup(
            run(after_remove(run(after_add(s, value), before), issued(s)), after),
            issued(s),
        ) is None,
{
    lemma_issued_handle_is_live(s, value);
    lemma_live_until_removed(after_add(s, value), issued(s), before);
    lemma_removed_stays_stale(run(after_add(s, value), before), issued(s), after);
}

/// Removing a payload and inserting another reuses the vacated slot, under a generation
/// one above the removed handle's, where no slot below it stands vacant.
pub proof fn lemma_vacated_slot_is_reused<T>(s: Seq<OptEntry<T>>, h: IdxGen)
    requires
        live(s, h),
        forall|j: int| 0 <= j < h.idx ==> (#[trigger] s[j]).opt_value is Some,
        h.gen < usize::MAX,
    ensures
        can_add(after_remove(s, h)),
        issued(after_remove(s, h)).idx == h.idx,
        issued(after_remove(s, h)).gen == h.gen + 1,
{
    let t = after_remove(s, h);
    assert(is_first_vacant(t, h.idx as int));
    lemma_first_vacant_unique(t, h.idx as int);
    assert forall|i: int| #[trigger] is_first_vacant(t, i) implies i == h.idx by {
        lemma_first_vacant_unique(t, i);
    }
}

/// Insertion never passes over a vacant slot: after a removal, the next handle issued
/// lies at or below the vacated position.
pub proof fn lemma_lowest_vacant_is_reused<T>(s: Seq<OptEntry<T>>, h: IdxGen)
    requires
        live(s, h),
    ensures
        issued(after_remove(s, h)).idx <= h.idx,
{
    let t = after_remove(s, h);
    lemma_first_vacant(t);
    if first_vacant(t) > h.idx {
        assert(t[h.idx as int].opt_value is Some);
    }
}

/// Removing through the handle that an insertion returned gives the inserted payload
/// back, and leaves what every handle names as it was before the insertion.
pub proof fn lemma_remove_returns_added<T>(s: Seq<OptEntry<T>>, value: T)
    requires
        fits(after_add(s, value)),
    ensures
        lookup(after_add(s, value), issued(s)) == Some(value),
        forall|h: IdxGen| lookup(after_remove(after_add(s, value), issued(s)), h) == lookup(s, h),
{
    lemma_first_vacant(s);
}

proof fn lemma_entries_from<T>(s: Seq<OptEntry<T>>, from: int)
    requires
        fits(s),
        0 <= from,
    ensures
        lists_live_handles(entries_from::<T>(s, from), s, from),
    decreases s.len() - from,
{
    let here = entries_from::<T>(s, from);
    if from < s.len() {
        let above = entries_from::<T>(s, from + 1);
        lemma_entries_from(s, from + 1);
        if s[from].opt_value is Some {
            assert forall|k: int| 0 < k < here.len() implies here[k] == above[k - 1] by {}
            assert forall|h: IdxGen| #[trigger] live(s, h) && from <= h.idx implies exists|k: int|
                0 <= k < here.len() && (#[trigger] here[k]).idx_gen == h by {
                if h.idx == from {
                    assert(here[0].idx_gen == h);
                } else {
                    let k = choose|k: int|
                        0 <= k < above.len() && (#[trigger] above[k]).idx_gen == h;
                    assert(here[k + 1] == above[k]);
                }
            }
        }
    }
}

/// Iteration is exact: every entry is a live handle with the payload it names, positions
/// rise strictly from entry to entry, so that no handle comes twice, and every live
/// handle is among the entries.
pub proof fn lemma_iteration_is_exact<T>(s: Seq<OptEntry<T>>)
    requires
        fits(s),
    ensures
        lists_live_handles(entries::<T>(s), s, 0),
{
    lemma_entries_from(s, 0);
}

/// An exclusive pass visits what a shared pass visits: the lowest occupied position at or
/// above `from` heads the entries from there and the entries above it follow; where no
/// slot at or above `from` is occupied, there are no entries.
pub proof fn lemma_first_occupied_heads_entries<T>(s: Seq<OptEntry<T>>, from: int, k: int)
    requires
        0 <= from <= s.len(),
    ensures
        is_first_occupied(s.skip(from), k) ==> {
            &&& entries_from::<T>(s, from).len() > 0
            &&& entries_from::<T>(s, from)[0] == entry_at::<T>(s, from + k)
            &&& entries_from::<T>(s, from).drop_first() == entries_from::<T>(s, from + k + 1)
        },
        (forall|i: int| from <= i < s.len() ==> (#[trigger] s[i]).opt_value is None)
            ==> entries_from::<T>(s, from).len() == 0,
    decreases s.len() - from,
{
    if from < s.len() {
        let here = s.skip(from);
        let above = s.skip(from + 1);
        assert(here[0] == s[from]);
        assert forall|j: int| 0 <= j < above.len() implies above[j] == here[j + 1] by {}
        if is_first_occupied(here, k) {
            if k == 0 {
                assert(entries_from::<T>(s, from).drop_first() =~= entries_from::<T>(
                    s,
                    from + 1,
                ));
            } else {
                assert(is_first_occupied(above, k - 1));
            }
        }
        lemma_first_occupied_heads_entries(s, from + 1, k - 1);
    }
}

} // verus!
