use dora::mem::{align_usize, ptr_width};
use dora::object::{offset_of_array_data, offset_of_array_length, Array, Header, Obj, ObjBody, Ref, Str, Testing};
use dora::object::Address;
use dora::class::{ClassData, ClassDefId, ClassSize};

#[test]
fn alignment_rounds_up_to_pointer_width() {
    assert_eq!(align_usize(0, 8), 0);
    assert_eq!(align_usize(1, 8), 8);
    assert_eq!(align_usize(8, 8), 8);
    assert_eq!(align_usize(25, 8), 32);
    assert_eq!(ptr_width(), 8);
}

#[test]
fn array_offsets_follow_the_header() {
    assert_eq!(offset_of_array_length(), 16);
    assert_eq!(offset_of_array_data(), 24);
}

#[test]
fn string_size_counts_header_length_and_bytes() {
    let s = Str { header: Header::new(), content: vec![104, 105] };
    assert_eq!(s.len(), 2);
    assert_eq!(s.size(), 16 + 8 + 2);
    assert_eq!(s.data()[0], 104);
}

#[test]
fn array_size_counts_element_width() {
    let a: Array<i32> = Array { header: Header::new(), elements: vec![1, 2, 3] };
    assert_eq!(a.len(), 3);
    assert_eq!(a.size(), 16 + 8 + 12);
    assert_eq!(a.get_at(2), 3);
    let b: Array<i64> = Array { header: Header::new(), elements: vec![5; 4] };
    assert_eq!(b.size(), 16 + 8 + 32);
}

#[test]
fn object_size_follows_the_class_policy() {
    let classes = vec![
        ClassData { size: ClassSize::Fixed(48), ref_fields: vec![16, 24] },
        ClassData { size: ClassSize::Array(4), ref_fields: vec![] },
        ClassData { size: ClassSize::Str, ref_fields: vec![] },
        ClassData { size: ClassSize::ObjArray, ref_fields: vec![] },
    ];
    let fixed = Obj {
        address: Address::from_usize(512),
        header: Header::new(),
        cls: ClassDefId(0),
        body: ObjBody::Fixed { fields: vec![Address::from_usize(0), Address::from_usize(0)] },
    };
    assert_eq!(fixed.size(&classes), 48);
    let prim = Obj {
        address: Address::from_usize(512),
        header: Header::new(),
        cls: ClassDefId(1),
        body: ObjBody::PrimArray { length: 3 },
    };
    // 24 bytes of header and length field, 12 bytes of elements, aligned up
    assert_eq!(prim.size(&classes), 40);
    let st = Obj {
        address: Address::from_usize(512),
        header: Header::new(),
        cls: ClassDefId(2),
        body: ObjBody::Str { length: 5 },
    };
    assert_eq!(st.size(&classes), 32);
    let refs = Obj {
        address: Address::from_usize(512),
        header: Header::new(),
        cls: ClassDefId(3),
        body: ObjBody::RefArray { elements: vec![Address::from_usize(0); 2] },
    };
    assert_eq!(refs.size(&classes), 40);
    assert!(refs.is_array_ref());
    assert_eq!(refs.num_ref_slots(), 2);
}

#[test]
fn bounded_reference_enumeration_stops_at_the_limit() {
    let classes = vec![ClassData { size: ClassSize::ObjArray, ref_fields: vec![] }];
    let arr = Obj {
        address: Address::from_usize(512),
        header: Header::new(),
        cls: ClassDefId(0),
        body: ObjBody::RefArray { elements: vec![Address::from_usize(0); 8] },
    };
    // slots start at 512 + 24 and are 8 bytes wide
    assert_eq!(arr.num_ref_slots_within(&classes, Address::from_usize(536)), 0);
    assert_eq!(arr.num_ref_slots_within(&classes, Address::from_usize(537)), 1);
    assert_eq!(arr.num_ref_slots_within(&classes, Address::from_usize(560)), 3);
    assert_eq!(arr.num_ref_slots_within(&classes, Address::from_usize(4096)), 8);
}

#[test]
fn typed_handles_keep_their_address() {
    let r: Ref<Str> = Ref::from_address(Address::from_usize(1024));
    assert_eq!(r.address().to_usize(), 1024);
    let o: Ref<Obj> = r.cast();
    assert_eq!(o.address().to_usize(), 1024);
    let n: Ref<Obj> = Ref::null();
    assert!(n.address().is_null());
    let t = Testing { header: Header::new(), failed: true };
    assert!(t.has_failed());
}
