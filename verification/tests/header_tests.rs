use dora::object::{Address, ClassWord, Header};

#[test]
fn header_markbit() {
    let mut h = Header::new();
    h.set_fwdptr_non_atomic(Address::from_usize(8));
    assert_eq!(false, h.is_marked_non_atomic());
    assert_eq!(8, h.fwdptr_non_atomic().to_usize());
    h.mark_non_atomic();
    assert_eq!(true, h.is_marked_non_atomic());
    assert_eq!(8, h.fwdptr_non_atomic().to_usize());
    h.set_fwdptr_non_atomic(Address::from_usize(16));
    assert_eq!(true, h.is_marked_non_atomic());
    assert_eq!(16, h.fwdptr_non_atomic().to_usize());
    h.unmark_non_atomic();
    assert_eq!(false, h.is_marked_non_atomic());
    assert_eq!(16, h.fwdptr_non_atomic().to_usize());
}

#[test]
fn try_mark_first_call_wins() {
    let mut h = Header::new();
    assert!(h.try_mark());
    assert!(!h.try_mark());
    assert!(h.is_marked_non_atomic());
}

#[test]
fn try_mark_non_atomic_first_call_wins() {
    let mut h = Header::new();
    assert!(h.try_mark_non_atomic());
    assert!(!h.try_mark_non_atomic());
}

#[test]
fn forward_cas_single_winner() {
    let cls = Address::from_usize(4096);
    let own = Address::from_usize(64);
    let mut h = Header::new();
    h.set_vtblptr(cls);
    assert_eq!(h.vtblptr().to_usize(), 4096);
    let dest = Address::from_usize(1024);
    assert!(h.vtblptr_forward_atomic(cls, dest, own).is_ok());
    // the loser of the race observes the winner's destination
    let other = Address::from_usize(2048);
    assert_eq!(h.vtblptr_forward_atomic(cls, other, own), Err(dest));
    assert_eq!(h.vtblptr_forwarded(), Some(dest));
    assert_eq!(h.vtblptr_forwarded_atomic(own), Ok(dest));
}

#[test]
fn forward_failure_keeps_object_in_place() {
    let cls = Address::from_usize(4096);
    let own = Address::from_usize(64);
    let mut h = Header::new();
    h.set_vtblptr(cls);
    assert!(h.vtblptr_forward_failure_atomic(cls, own).is_ok());
    // a failed forward reads as "still at its own address"
    assert_eq!(h.vtblptr_forwarded_atomic(own), Ok(own));
    assert_eq!(h.vtblptr_forwarded(), None);
}

#[test]
fn repair_restores_plain_class_pointer() {
    let cls = Address::from_usize(4096);
    let own = Address::from_usize(64);
    let mut h = Header::new();
    h.set_vtblptr(cls);
    assert!(h.vtblptr_forward_failure_atomic(cls, own).is_ok());
    h.vtblptr_repair();
    assert_eq!(h.vtblptr(), cls);
    assert!(matches!(h.vtable, ClassWord::Pointer(_)));
}

#[test]
fn repair_twice_is_noop() {
    let cls = Address::from_usize(4096);
    let own = Address::from_usize(64);
    let mut h = Header::new();
    h.set_vtblptr(cls);
    assert!(h.vtblptr_forward_failure_atomic(cls, own).is_ok());
    h.vtblptr_repair();
    let repaired = h;
    h.vtblptr_repair();
    assert_eq!(h, repaired);
}

#[test]
fn header_size_is_two_words() {
    assert_eq!(Header::size(), 16);
}
