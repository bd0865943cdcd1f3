use dora::class::{ClassData, ClassSize};
use dora::crossing::CrossingEntry;
use dora::heap::Heap;
use dora::object::{Address, ClassWord};
use dora::space::GcReason;
use dora::collector::FullSweepCollector;

fn small_heap() -> Heap {
    Heap::new(8192, 8192, 16384, 4096)
}

fn fixed_class(heap: &mut Heap, size: usize, ref_fields: Vec<usize>) -> dora::class::ClassDefId {
    heap.register_class(ClassData { size: ClassSize::Fixed(size), ref_fields })
        .unwrap()
}

fn new_address_of(col: &FullSweepCollector, old: Address) -> Address {
    for &(from, to) in col.relocations.iter() {
        if from == old {
            return to;
        }
    }
    old
}

#[test]
fn chain_survives_collection_with_repaired_references() {
    let mut heap = small_heap();
    let cls = fixed_class(&mut heap, 32, vec![16]);
    let a = heap.alloc_object(cls).unwrap();
    let b = heap.alloc_object(cls).unwrap();
    let c = heap.alloc_object(cls).unwrap();
    assert!(heap.store_ref(a, 0, b));
    assert!(heap.store_ref(b, 0, c));
    let mut col = FullSweepCollector::new(vec![a], GcReason::ForceCollect, 0, usize::MAX);
    col.collect(&mut heap).unwrap();
    // all three survive, relocated into the old generation
    assert_eq!(heap.old_objs.len(), 3);
    assert_eq!(heap.young_objs.len(), 0);
    let a2 = col.rootset[0];
    assert_ne!(a2, a);
    assert!(heap.old.base <= a2.to_usize() && a2.to_usize() < heap.old.end);
    // A's field resolves to B's new address, B's to C's new address
    let b2 = heap.read_ref(a2, 0).unwrap();
    assert_eq!(b2, new_address_of(&col, b));
    let c2 = heap.read_ref(b2, 0).unwrap();
    assert_eq!(c2, new_address_of(&col, c));
    assert_eq!(heap.read_ref(c2, 0), Some(Address::from_usize(0)));
}

#[test]
fn sizes_are_preserved_across_compaction() {
    let mut heap = small_heap();
    let cls_small = fixed_class(&mut heap, 32, vec![16]);
    let cls_big = fixed_class(&mut heap, 128, vec![]);
    let a = heap.alloc_object(cls_small).unwrap();
    let b = heap.alloc_object(cls_big).unwrap();
    let mut col = FullSweepCollector::new(vec![a, b], GcReason::ForceCollect, 0, usize::MAX);
    col.collect(&mut heap).unwrap();
    let classes = heap.classes.clone();
    let mut sizes: Vec<usize> = Vec::new();
    for o in heap.old_objs.iter() {
        sizes.push(o.size(&classes));
    }
    sizes.sort();
    assert_eq!(sizes, vec![32, 128]);
}

#[test]
fn class_pointers_are_plain_after_a_cycle() {
    let mut heap = small_heap();
    let cls = fixed_class(&mut heap, 32, vec![16]);
    let a = heap.alloc_object(cls).unwrap();
    let b = heap.alloc_object(cls).unwrap();
    assert!(heap.store_ref(a, 0, b));
    let mut col = FullSweepCollector::new(vec![a], GcReason::ForceCollect, 0, usize::MAX);
    col.collect(&mut heap).unwrap();
    for o in heap.old_objs.iter() {
        assert!(matches!(o.header.vtable, ClassWord::Pointer(_)));
        assert!(!o.header.marked);
    }
}

#[test]
fn unreferenced_object_is_reclaimed() {
    let mut heap = small_heap();
    let cls = fixed_class(&mut heap, 32, vec![]);
    let d = heap.alloc_object(cls).unwrap();
    assert!(!d.is_null());
    let mut col = FullSweepCollector::new(vec![], GcReason::ForceCollect, 0, usize::MAX);
    col.collect(&mut heap).unwrap();
    // D's space is reclaimed: nothing survives, and the post-collection
    // crossing map shows no object anywhere
    assert_eq!(heap.old_objs.len(), 0);
    assert_eq!(heap.young_objs.len(), 0);
    assert_eq!(heap.old.top, heap.old.base);
    for c in 0..heap.crossing.entries.len() {
        assert_eq!(heap.crossing.entry_at(c), CrossingEntry::NoObject);
    }
}

#[test]
fn compaction_closes_gaps_and_rewrites_the_crossing_map() {
    let mut heap = small_heap();
    let cls_two_cards = fixed_class(&mut heap, 1024, vec![]);
    let cls_one_card = fixed_class(&mut heap, 512, vec![]);
    let o1 = heap.alloc_object(cls_two_cards).unwrap();
    let o2 = heap.alloc_object(cls_one_card).unwrap();
    let o3 = heap.alloc_object(cls_two_cards).unwrap();
    let mut col = FullSweepCollector::new(vec![o1, o2, o3], GcReason::ForceCollect, 0,
        usize::MAX);
    col.collect(&mut heap).unwrap();
    // live objects now occupy cards 0..2 of the old generation, the third
    // object spans cards 3 and 4
    assert_eq!(heap.old_objs.len(), 3);
    let o1n = new_address_of(&col, o1);
    let o2n = new_address_of(&col, o2);
    // drop the spanning object: collect again with only the first two roots
    let mut col2 = FullSweepCollector::new(vec![o1n, o2n], GcReason::ForceCollect, 0,
        usize::MAX);
    col2.collect(&mut heap).unwrap();
    assert_eq!(heap.old_objs.len(), 2);
    assert_eq!(heap.old.top, heap.old.base + 1536);
    // the crossing map reflects the denser layout with no gaps
    assert_eq!(heap.crossing.entry_at(0), CrossingEntry::FirstObject(0));
    assert_eq!(heap.crossing.entry_at(1), CrossingEntry::StartsEarlier(1));
    assert_eq!(heap.crossing.entry_at(2), CrossingEntry::FirstObject(0));
    for c in 3..heap.crossing.entries.len() {
        assert_eq!(heap.crossing.entry_at(c), CrossingEntry::NoObject);
    }
}

#[test]
fn collection_fails_cleanly_when_survivors_cannot_fit() {
    // old generation far too small for the young survivor
    let mut heap = Heap::new(4096, 512, 4096, 4096);
    let cls = fixed_class(&mut heap, 1024, vec![]);
    let a = heap.alloc_object(cls).unwrap();
    let b = heap.alloc_object(cls).unwrap();
    let mut col = FullSweepCollector::new(vec![a, b], GcReason::AllocationFailure, 0,
        usize::MAX);
    assert!(col.collect(&mut heap).is_err());
    // the heap is exactly as it was: both objects still young and readable
    assert_eq!(heap.young_objs.len(), 2);
    assert_eq!(col.rootset, vec![a, b]);
    for o in heap.young_objs.iter() {
        assert!(matches!(o.header.vtable, ClassWord::Pointer(_)));
        assert!(!o.header.marked);
    }
}

#[test]
fn heap_repair_resolves_chains_and_is_idempotent() {
    let mut heap = small_heap();
    let cls = fixed_class(&mut heap, 32, vec![]);
    let a = heap.alloc_object(cls).unwrap();
    let b = heap.alloc_object(cls).unwrap();
    let vtbl_b = match heap.young_objs[1].header.vtable {
        ClassWord::Pointer(p) => p,
        _ => panic!("fresh header must hold a plain class pointer"),
    };
    // simulate an evacuation's forward: a's header points at b's object
    heap.young_objs[0].header.vtable = ClassWord::ForwardTo(b);
    assert!(heap.repair_class_pointer(a));
    assert_eq!(heap.young_objs[0].header.vtable, ClassWord::Pointer(vtbl_b));
    // repairing an already-repaired header is a no-op
    let before = heap.young_objs[0].header;
    assert!(heap.repair_class_pointer(a));
    assert_eq!(heap.young_objs[0].header, before);
    // no object starts between the two headers
    assert!(!heap.repair_class_pointer(Address::from_usize(a.to_usize() + 8)));
}
