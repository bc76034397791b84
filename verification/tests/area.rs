use genarea::genarea::iter::{MutEntry, RefEntry};
use genarea::genarea::{Area, IdxGen};

#[test]
fn mod_test() {
    let mut area = Area::<String>::default();

    let a_ig = area.add("a".to_string());
    let a = area.remove(a_ig).unwrap();
    assert_eq!(a_ig, IdxGen { idx: 0, gen: 0 });
    assert_eq!(a, "a");

    let b_ig = area.add("b".to_string());
    let b = area.get(b_ig).unwrap();
    assert_eq!(b_ig, IdxGen { idx: 0, gen: 1 });
    assert_eq!(b, "b");

    let c_ig = area.add("c".to_string());
    let c = area.remove(c_ig).unwrap();
    assert_eq!(c_ig, IdxGen { idx: 1, gen: 0 });
    assert_eq!(c, "c");
}

#[test]
fn scenario_ends_with_one_entry() {
    let mut area = Area::<String>::default();
    let a = area.add("a".to_string());
    assert_eq!(a, IdxGen { idx: 0, gen: 0 });
    assert_eq!(area.remove(IdxGen { idx: 0, gen: 0 }), Some("a".to_string()));
    let b = area.add("b".to_string());
    assert_eq!(b, IdxGen { idx: 0, gen: 1 });
    assert_eq!(area.get(IdxGen { idx: 0, gen: 1 }), Some(&"b".to_string()));
    let c = area.add("c".to_string());
    assert_eq!(c, IdxGen { idx: 1, gen: 0 });
    assert_eq!(area.remove(IdxGen { idx: 1, gen: 0 }), Some("c".to_string()));

    let mut it = area.iter();
    let first = it.next().unwrap();
    assert_eq!(first.idx_gen, IdxGen { idx: 0, gen: 1 });
    assert_eq!(first.value, "b");
    assert!(it.next().is_none());
    assert!(it.next().is_none());
}

#[test]
fn empty_area_holds_nothing() {
    let mut area = Area::<u32>::default();
    assert_eq!(area.get(IdxGen { idx: 0, gen: 0 }), None);
    assert_eq!(area.get_mut(IdxGen { idx: 0, gen: 0 }), None);
    assert_eq!(area.remove(IdxGen { idx: 0, gen: 0 }), None);
    assert!(area.iter().next().is_none());
    assert!(area.iter_mut().next().is_none());
}

#[test]
fn handle_is_good_until_removed() {
    let mut area = Area::<u32>::default();
    let h = area.add(10);
    assert_eq!(area.get(h), Some(&10));
    let other = area.add(20);
    assert_eq!(area.get(h), Some(&10));
    assert_eq!(area.remove(other), Some(20));
    assert_eq!(area.get(h), Some(&10));
    let again = area.add(30);
    assert_eq!(again, IdxGen { idx: 1, gen: 1 });
    assert_eq!(area.get(h), Some(&10));
    assert_eq!(area.remove(h), Some(10));
    assert_eq!(area.get(h), None);
}

#[test]
fn removed_handle_stays_stale() {
    let mut area = Area::<u32>::default();
    let h = area.add(1);
    assert_eq!(area.remove(h), Some(1));
    for round in 0..5u32 {
        let fresh = area.add(100 + round);
        assert_eq!(fresh, IdxGen { idx: 0, gen: 1 + round as usize });
        assert_eq!(area.get(h), None);
        assert_eq!(area.get_mut(h), None);
        assert_eq!(area.remove(h), None);
        assert_eq!(area.get(fresh), Some(&(100 + round)));
        assert_eq!(area.remove(fresh), Some(100 + round));
    }
    let kept = area.add(7);
    let more = area.add(8);
    assert_eq!(kept, IdxGen { idx: 0, gen: 6 });
    assert_eq!(more, IdxGen { idx: 1, gen: 0 });
    assert_eq!(area.get(h), None);
    assert_eq!(area.remove(h), None);
    assert_eq!(area.get(kept), Some(&7));
}

#[test]
fn remove_succeeds_once() {
    let mut area = Area::<u32>::default();
    let h = area.add(5);
    assert_eq!(area.remove(h), Some(5));
    assert_eq!(area.remove(h), None);
    assert_eq!(area.get(h), None);
}

#[test]
fn failed_remove_changes_nothing() {
    let mut area = Area::<u32>::default();
    let a = area.add(1);
    let b = area.add(2);
    assert_eq!(area.remove(IdxGen { idx: 0, gen: 1 }), None);
    assert_eq!(area.remove(IdxGen { idx: 2, gen: 0 }), None);
    assert_eq!(area.remove(IdxGen { idx: usize::MAX, gen: 0 }), None);
    assert_eq!(area.get(a), Some(&1));
    assert_eq!(area.get(b), Some(&2));
    let seen: Vec<(IdxGen, u32)> = area.iter().map(|e| (e.idx_gen, *e.value)).collect();
    assert_eq!(seen, vec![(a, 1), (b, 2)]);
}

#[test]
fn vacated_slot_is_reused_with_higher_generation() {
    let mut area = Area::<u32>::default();
    let a = area.add(1);
    let b = area.add(2);
    let c = area.add(3);
    assert_eq!((a, b, c), (
        IdxGen { idx: 0, gen: 0 },
        IdxGen { idx: 1, gen: 0 },
        IdxGen { idx: 2, gen: 0 },
    ));
    assert_eq!(area.remove(b), Some(2));
    let d = area.add(4);
    assert_eq!(d, IdxGen { idx: 1, gen: 1 });
    assert!(d.gen > b.gen);
    assert_eq!(area.get(b), None);
    assert_eq!(area.get(d), Some(&4));
}

#[test]
fn lowest_vacant_slot_is_taken_first() {
    let mut area = Area::<u32>::default();
    let a = area.add(1);
    let _b = area.add(2);
    let c = area.add(3);
    assert_eq!(area.remove(c), Some(3));
    assert_eq!(area.remove(a), Some(1));
    assert_eq!(area.add(10), IdxGen { idx: 0, gen: 1 });
    assert_eq!(area.add(11), IdxGen { idx: 2, gen: 1 });
    assert_eq!(area.add(12), IdxGen { idx: 3, gen: 0 });
}

#[test]
fn remove_gives_back_what_add_stored() {
    let mut area = Area::<String>::default();
    let kept = area.add("kept".to_string());
    let h = area.add("payload".to_string());
    assert_eq!(area.remove(h), Some("payload".to_string()));
    assert_eq!(area.get(kept), Some(&"kept".to_string()));
    let seen: Vec<IdxGen> = area.iter().map(|e| e.idx_gen).collect();
    assert_eq!(seen, vec![kept]);
}

#[test]
fn get_mut_writes_in_place() {
    let mut area = Area::<u32>::default();
    let a = area.add(1);
    let b = area.add(2);
    *area.get_mut(a).unwrap() = 9;
    assert_eq!(area.get(a), Some(&9));
    assert_eq!(area.get(b), Some(&2));
    assert_eq!(area.get_mut(IdxGen { idx: 0, gen: 1 }), None);
    assert_eq!(area.get_mut(IdxGen { idx: 5, gen: 0 }), None);
    assert_eq!(area.remove(a), Some(9));
    assert_eq!(area.get_mut(a), None);
}

#[test]
fn iteration_skips_vacant_slots() {
    let mut area = Area::<u32>::default();
    let handles: Vec<IdxGen> = (0..6u32).map(|v| area.add(v * 10)).collect();
    assert_eq!(area.remove(handles[0]), Some(0));
    assert_eq!(area.remove(handles[2]), Some(20));
    assert_eq!(area.remove(handles[3]), Some(30));
    assert_eq!(area.remove(handles[5]), Some(50));
    let seen: Vec<(IdxGen, u32)> = area.iter().map(|e| (e.idx_gen, *e.value)).collect();
    assert_eq!(seen, vec![
        (IdxGen { idx: 1, gen: 0 }, 10),
        (IdxGen { idx: 4, gen: 0 }, 40),
    ]);
}

#[test]
fn iteration_yields_live_handles_in_ascending_order() {
    let mut area = Area::<u32>::default();
    let mut handles: Vec<IdxGen> = (0..8u32).map(|v| area.add(v)).collect();
    assert_eq!(area.remove(handles[1]), Some(1));
    assert_eq!(area.remove(handles[6]), Some(6));
    handles[1] = area.add(100);
    assert_eq!(handles[1], IdxGen { idx: 1, gen: 1 });
    assert_eq!(area.remove(handles[4]), Some(4));

    let entries: Vec<RefEntry<u32>> = area.iter().collect();
    for pair in entries.windows(2) {
        assert!(pair[0].idx_gen.idx < pair[1].idx_gen.idx);
    }
    for entry in &entries {
        assert_eq!(area.get(entry.idx_gen), Some(entry.value));
    }
    for idx in 0..10usize {
        for gen in 0..3usize {
            let h = IdxGen { idx, gen };
            let yielded = entries.iter().filter(|e| e.idx_gen == h).count();
            assert_eq!(yielded, if area.get(h).is_some() { 1 } else { 0 });
        }
    }
    assert_eq!(entries.len(), 6);
}

#[test]
fn iteration_restarts_from_the_first_slot() {
    let mut area = Area::<u32>::default();
    let a = area.add(1);
    let b = area.add(2);
    let first: Vec<IdxGen> = area.iter().map(|e| e.idx_gen).collect();
    let second: Vec<IdxGen> = area.iter().map(|e| e.idx_gen).collect();
    assert_eq!(first, vec![a, b]);
    assert_eq!(second, vec![a, b]);
}

#[test]
fn mutable_iteration_writes_every_payload() {
    let mut area = Area::<u32>::default();
    let a = area.add(1);
    let b = area.add(2);
    let c = area.add(3);
    let d = area.add(4);
    assert_eq!(area.remove(a), Some(1));
    assert_eq!(area.remove(c), Some(3));

    let mut seen: Vec<IdxGen> = Vec::new();
    for entry in area.iter_mut() {
        let MutEntry { idx_gen, value } = entry;
        seen.push(idx_gen);
        *value += 100;
    }
    assert_eq!(seen, vec![b, d]);
    assert_eq!(area.get(a), None);
    assert_eq!(area.get(b), Some(&102));
    assert_eq!(area.get(c), None);
    assert_eq!(area.get(d), Some(&104));
    assert_eq!(area.add(5), IdxGen { idx: 0, gen: 1 });
}

#[test]
fn mutable_iteration_keeps_entries_apart() {
    let mut area = Area::<String>::default();
    let a = area.add("a".to_string());
    let b = area.add("b".to_string());
    let mut it = area.iter_mut();
    let first = it.next().unwrap();
    let second = it.next().unwrap();
    assert!(it.next().is_none());
    assert!(it.next().is_none());
    second.value.push('2');
    first.value.push('1');
    assert_eq!(first.idx_gen, a);
    assert_eq!(second.idx_gen, b);
    assert_eq!(area.get(a), Some(&"a1".to_string()));
    assert_eq!(area.get(b), Some(&"b2".to_string()));
}

#[test]
fn handles_are_plain_values() {
    let h = IdxGen { idx: 3, gen: 4 };
    let copy = h;
    assert_eq!(h, copy);
    assert_ne!(h, IdxGen { idx: 3, gen: 5 });
    assert_ne!(h, IdxGen { idx: 4, gen: 4 });
    let mut set = std::collections::HashSet::new();
    assert!(set.insert(h));
    assert!(!set.insert(copy));
    assert_eq!(format!("{:?}", h), "IdxGen { idx: 3, gen: 4 }");
}

#[test]
fn insertion_is_possible_while_generations_last() {
    let mut area = Area::<u32>::default();
    assert!(area.can_add());
    let a = area.add(1);
    assert!(area.can_add());
    assert_eq!(area.remove(a), Some(1));
    assert!(area.can_add());
    assert_eq!(area.add(2), IdxGen { idx: 0, gen: 1 });
    assert!(area.can_add());
}
