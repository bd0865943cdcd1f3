use dora::card::CARD_SIZE;
use dora::class::{ClassData, ClassSize};
use dora::heap::{allocate, Heap};
use dora::object::Address;

fn small_heap() -> Heap {
    Heap::new(8192, 8192, 16384, 4096)
}

fn fixed_class(size: usize, ref_fields: Vec<usize>) -> ClassData {
    ClassData { size: ClassSize::Fixed(size), ref_fields }
}

#[test]
fn allocation_is_bump_shaped() {
    let mut heap = small_heap();
    let cls = heap.register_class(fixed_class(32, vec![16])).unwrap();
    let a = heap.alloc_object(cls).unwrap();
    let b = heap.alloc_object(cls).unwrap();
    assert_eq!(a.to_usize() + 32, b.to_usize());
    assert_eq!(heap.young_objs.len(), 2);
}

#[test]
fn allocate_returns_null_when_full() {
    let mut heap = Heap::new(512, 512, 512, 512);
    let cls = heap.register_class(fixed_class(512, vec![])).unwrap();
    let first = allocate(&mut heap, cls);
    assert!(!first.address().is_null());
    let second = allocate(&mut heap, cls);
    assert!(second.address().is_null());
}

#[test]
fn large_objects_go_to_the_large_space() {
    let mut heap = small_heap();
    let cls = heap.register_class(fixed_class(4096, vec![])).unwrap();
    let a = heap.alloc_object(cls).unwrap();
    assert_eq!(heap.young_objs.len(), 0);
    assert_eq!(heap.large_objs.len(), 1);
    assert!(heap.large.base <= a.to_usize() && a.to_usize() < heap.large.end);
}

#[test]
fn store_and_read_reference_field() {
    let mut heap = small_heap();
    let cls = heap.register_class(fixed_class(32, vec![16])).unwrap();
    let a = heap.alloc_object(cls).unwrap();
    let b = heap.alloc_object(cls).unwrap();
    assert!(heap.store_ref(a, 0, b));
    assert_eq!(heap.read_ref(a, 0), Some(b));
    assert_eq!(heap.read_ref(b, 0), Some(Address::from_usize(0)));
}

#[test]
fn store_to_missing_slot_is_refused() {
    let mut heap = small_heap();
    let cls = heap.register_class(fixed_class(32, vec![16])).unwrap();
    let a = heap.alloc_object(cls).unwrap();
    assert!(!heap.store_ref(a, 1, Address::from_usize(0)));
    assert!(!heap.store_ref(Address::from_usize(24), 0, Address::from_usize(0)));
}

#[test]
fn old_generation_store_dirties_the_card() {
    let mut heap = small_heap();
    let cls = heap.register_class(fixed_class(32, vec![16])).unwrap();
    // place an object in the old generation the way the collector does:
    // through a collection that promotes a young survivor
    let a = heap.alloc_object(cls).unwrap();
    let mut roots = vec![a];
    heap.collect_garbage(&mut roots, dora::space::GcReason::ForceCollect)
        .unwrap();
    let promoted = roots[0];
    assert!(heap.old.base <= promoted.to_usize() && promoted.to_usize() < heap.old.end);
    let young = heap.alloc_object(cls).unwrap();
    assert!(heap.store_ref(promoted, 0, young));
    let slot_addr = promoted.to_usize() + 16;
    let card = (slot_addr - heap.card_table.base) / CARD_SIZE;
    assert!(heap.card_table.is_dirty(card));
}

#[test]
fn ref_array_allocation_has_null_slots() {
    let mut heap = small_heap();
    let cls = heap
        .register_class(ClassData { size: ClassSize::ObjArray, ref_fields: vec![] })
        .unwrap();
    let a = heap.alloc_ref_array(cls, 3).unwrap();
    for i in 0..3 {
        assert_eq!(heap.read_ref(a, i), Some(Address::from_usize(0)));
    }
    assert_eq!(heap.read_ref(a, 3), None);
}
