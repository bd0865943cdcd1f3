//! Per-object header protocol and the typed object layouts.
//!
//! Every heap object starts with a [`Header`]: a class-pointer slot that
//! doubles as a forwarding pointer during collection, and a relocation word
//! holding a mark bit beside a pointer-aligned relocation address. The
//! forwarding slot is modelled as a tagged union with exactly the three legal
//! states of the protocol, so illegal states are unrepresentable.

use vstd::prelude::*;
use crate::class;
use crate::class::{ClassData, ClassDefId, ClassSize};
use crate::mem;

verus! {

/// A byte address in the modelled heap. Address 0 is the null reference.
#[derive(Clone, Copy, PartialEq, Eq, Structural, Debug)]
pub struct Address(pub usize);

impl Address {
    /// The null address.
    pub fn null() -> (r: Address)
        ensures
            r.0 == 0,
    {
        Address(0)
    }

    pub fn from_usize(value: usize) -> (r: Address)
        ensures
            r.0 == value,
    {
        Address(value)
    }

    pub fn to_usize(&self) -> (r: usize)
        ensures
            r == self.0,
    {
        self.0
    }

    pub fn is_null(&self) -> (r: bool)
        ensures
            r == (self.0 == 0),
    {
        self.0 == 0
    }

    /// This address moved forward by `bytes`.
    pub fn offset(&self, bytes: usize) -> (r: Address)
        requires
            self.0 + bytes <= usize::MAX,
        ensures
            r.0 == self.0 + bytes,
    {
        Address(self.0 + bytes)
    }
}

/// The class-pointer slot of a header: the three legal states of the
/// forwarding protocol.
#[derive(Clone, Copy, PartialEq, Eq, Structural, Debug)]
pub enum ClassWord {
    /// A plain (untagged) pointer to the object's class/vtable descriptor.
    Pointer(Address),
    /// The object has been evacuated; the payload is its new location.
    ForwardTo(Address),
    /// An evacuation attempt failed; the original class pointer is retained
    /// so that repair can restore the plain state.
    ForwardFailed(Address),
}

/// Per-object metadata word pair.
///
/// The relocation word packs the mark bit beside a pointer-aligned relocation
/// address; the two are modelled as separate fields, with alignment of the
/// address kept as an invariant so the pair stays faithful to one packed word.
#[derive(Clone, Copy, PartialEq, Eq, Structural, Debug)]
pub struct Header {
    /// Class-pointer slot, doubling as the forwarding slot.
    pub vtable: ClassWord,
    /// Relocation address used during old-generation compaction.
    pub fwdptr: Address,
    /// Mark bit, set by the marking phase and cleared at cycle start.
    pub marked: bool,
}

impl Header {
    /// A fresh header: null class pointer, null relocation address, unmarked.
    pub fn new() -> (h: Header)
        ensures
            h.vtable == ClassWord::Pointer(Address(0)),
            h.fwdptr.0 == 0,
            !h.marked,
    {
        Header { vtable: ClassWord::Pointer(Address(0)), fwdptr: Address(0), marked: false }
    }

    /// Byte size of the header: two pointer-sized words.
    pub fn size() -> (r: i32)
        ensures
            r == 16,
    {
        16
    }

    /// The plain class pointer. Valid only outside of forwarding states;
    /// during collection, forwarded headers are read through
    /// [`Header::vtblptr_forwarded_atomic`] instead.
    pub fn vtblptr(&self) -> (r: Address)
        requires
            self.vtable is Pointer,
        ensures
            self.vtable == ClassWord::Pointer(r),
    {
        match self.vtable {
            ClassWord::Pointer(p) => p,
            ClassWord::ForwardTo(a) => a,
            ClassWord::ForwardFailed(p) => p,
        }
    }

    pub fn set_vtblptr(&mut self, addr: Address)
        ensures
            final(self).vtable == ClassWord::Pointer(addr),
            final(self).fwdptr == old(self).fwdptr,
            final(self).marked == old(self).marked,
    {
        self.vtable = ClassWord::Pointer(addr);
    }

    /// Non-atomic install of a forwarding pointer, for single-threaded phases.
    pub fn vtblptr_forward(&mut self, address: Address)
        ensures
            final(self).vtable == ClassWord::ForwardTo(address),
            final(self).fwdptr == old(self).fwdptr,
            final(self).marked == old(self).marked,
    {
        self.vtable = ClassWord::ForwardTo(address);
    }

    /// Non-atomic fast read of the forwarding slot, for single-threaded
    /// phases: the new location if the object has been forwarded.
    pub fn vtblptr_forwarded(&self) -> (r: Option<Address>)
        ensures
            r == match self.vtable {
                ClassWord::ForwardTo(a) => Some(a),
                _ => None::<Address>,
            },
    {
        match self.vtable {
            ClassWord::ForwardTo(a) => Some(a),
            _ => None,
        }
    }

    /// Repairs the local header states: a failed forward is rewritten back to
    /// the retained plain class pointer, and an already-plain header is left
    /// untouched. A header in the `ForwardTo` state is repaired by the heap,
    /// which follows the chain to the final class pointer
    /// (`Heap::repair_class_pointer`).
    pub fn vtblptr_repair(&mut self)
        requires
            !(old(self).vtable is ForwardTo),
        ensures
            final(self).vtable == match old(self).vtable {
                ClassWord::ForwardFailed(p) => ClassWord::Pointer(p),
                w => w,
            },
            final(self).fwdptr == old(self).fwdptr,
            final(self).marked == old(self).marked,
    {
        match self.vtable {
            ClassWord::ForwardFailed(p) => {
                self.vtable = ClassWord::Pointer(p);
            }
            _ => {}
        }
    }

    /// Reads the forwarding slot as the concurrent protocol does: a failed
    /// forward means the object stays at its own address `self_addr`, a
    /// forward gives the new location, and a plain class pointer is reported
    /// as "not forwarded" carrying that pointer.
    pub fn vtblptr_forwarded_atomic(&self, self_addr: Address) -> (r: Result<Address, Address>)
        ensures
            r == match self.vtable {
                ClassWord::ForwardFailed(_) => Ok::<Address, Address>(self_addr),
                ClassWord::ForwardTo(a) => Ok::<Address, Address>(a),
                ClassWord::Pointer(p) => Err::<Address, Address>(p),
            },
    {
        match self.vtable {
            ClassWord::ForwardFailed(_) => Ok(self_addr),
            ClassWord::ForwardTo(a) => Ok(a),
            ClassWord::Pointer(p) => Err(p),
        }
    }

    /// Compare-and-swap install of a forwarding pointer: succeeds exactly
    /// when the slot still holds the expected plain class pointer; the loser
    /// of a race is handed the winner's forwarding target so it can follow
    /// the chain instead of retrying blindly. Attempting this against a
    /// header already in the failed-forward sentinel state while expecting a
    /// plain class pointer is an internal consistency violation — a
    /// collector defect, never a recoverable outcome — so that state is
    /// excluded outright.
    pub fn vtblptr_forward_atomic(
        &mut self,
        expected_vtblptr: Address,
        new_address: Address,
        self_addr: Address,
    ) -> (r: Result<(), Address>)
        requires
            !(old(self).vtable is ForwardFailed),
        ensures
            old(self).vtable == ClassWord::Pointer(expected_vtblptr) ==> {
                &&& r is Ok
                &&& final(self).vtable == ClassWord::ForwardTo(new_address)
            },
            old(self).vtable != ClassWord::Pointer(expected_vtblptr) ==> {
                &&& *final(self) == *old(self)
                &&& r == match old(self).vtable {
                    ClassWord::ForwardTo(a) => Err::<(), Address>(a),
                    ClassWord::Pointer(p) => Err::<(), Address>(p),
                    ClassWord::ForwardFailed(_) => Err::<(), Address>(self_addr),
                }
            },
            final(self).fwdptr == old(self).fwdptr,
            final(self).marked == old(self).marked,
    {
        match self.vtable {
            ClassWord::Pointer(p) => {
                if p == expected_vtblptr {
                    self.vtable = ClassWord::ForwardTo(new_address);
                    Ok(())
                } else {
                    Err(p)
                }
            }
            ClassWord::ForwardTo(a) => Err(a),
            ClassWord::ForwardFailed(_) => Err(self_addr),
        }
    }

    /// Compare-and-swap that records a failed evacuation attempt while
    /// retaining the class pointer; failure reporting is as in
    /// [`Header::vtblptr_forward_atomic`], and a header already in the
    /// sentinel state is likewise excluded as a consistency violation.
    pub fn vtblptr_forward_failure_atomic(
        &mut self,
        expected_vtblptr: Address,
        self_addr: Address,
    ) -> (r: Result<(), Address>)
        requires
            !(old(self).vtable is ForwardFailed),
        ensures
            old(self).vtable == ClassWord::Pointer(expected_vtblptr) ==> {
                &&& r is Ok
                &&& final(self).vtable == ClassWord::ForwardFailed(expected_vtblptr)
            },
            old(self).vtable != ClassWord::Pointer(expected_vtblptr) ==> {
                &&& *final(self) == *old(self)
                &&& r == match old(self).vtable {
                    ClassWord::ForwardTo(a) => Err::<(), Address>(a),
                    ClassWord::Pointer(p) => Err::<(), Address>(p),
                    ClassWord::ForwardFailed(_) => Err::<(), Address>(self_addr),
                }
            },
            final(self).fwdptr == old(self).fwdptr,
            final(self).marked == old(self).marked,
    {
        match self.vtable {
            ClassWord::Pointer(p) => {
                if p == expected_vtblptr {
                    self.vtable = ClassWord::ForwardFailed(expected_vtblptr);
                    Ok(())
                } else {
                    Err(p)
                }
            }
            ClassWord::ForwardTo(a) => Err(a),
            ClassWord::ForwardFailed(_) => Err(self_addr),
        }
    }

    /// The relocation address, without the mark bit.
    pub fn fwdptr_non_atomic(&self) -> (r: Address)
        ensures
            r == self.fwdptr,
    {
        self.fwdptr
    }

    /// Stores a relocation address. The address must be pointer-aligned so
    /// that it cannot collide with the mark bit it is packed beside.
    pub fn set_fwdptr_non_atomic(&mut self, addr: Address)
        requires
            addr.0 % 8 == 0,
        ensures
            final(self).fwdptr == addr,
            final(self).vtable == old(self).vtable,
            final(self).marked == old(self).marked,
    {
        self.fwdptr = addr;
    }

    pub fn mark_non_atomic(&mut self)
        ensures
            final(self).marked,
            final(self).vtable == old(self).vtable,
            final(self).fwdptr == old(self).fwdptr,
    {
        self.marked = true;
    }

    pub fn unmark_non_atomic(&mut self)
        ensures
            !final(self).marked,
            final(self).vtable == old(self).vtable,
            final(self).fwdptr == old(self).fwdptr,
    {
        self.marked = false;
    }

    pub fn is_marked_non_atomic(&self) -> (r: bool)
        ensures
            r == self.marked,
    {
        self.marked
    }

    /// Sets the mark bit and reports whether this call was the one to set it,
    /// for single-threaded phases.
    pub fn try_mark_non_atomic(&mut self) -> (r: bool)
        ensures
            try_mark_transition(*old(self), *final(self), r),
    {
        if self.marked {
            return false;
        }
        self.marked = true;
        true
    }

    /// Sets the mark bit and reports whether this call was the one to set it.
    /// This is the tracer's de-duplication primitive: of all calls on one
    /// header, only the first returns true, so each object is pushed onto the
    /// scan queue exactly once.
    pub fn try_mark(&mut self) -> (r: bool)
        ensures
            try_mark_transition(*old(self), *final(self), r),
    {
        let won = !self.marked;
        self.marked = true;
        won
    }
}

/// The transition `try_mark` makes: the caller wins exactly when the mark bit
/// was clear, the bit is set afterwards, and nothing else changes.
pub open spec fn try_mark_transition(pre: Header, post: Header, won: bool) -> bool {
    &&& won == !pre.marked
    &&& post.marked
    &&& post.vtable == pre.vtable
    &&& post.fwdptr == pre.fwdptr
}

/// The transition `vtblptr_repair` makes on a header that is not in the
/// `ForwardTo` state.
pub open spec fn repair_transition(pre: Header, post: Header) -> bool {
    &&& post.vtable == match pre.vtable {
        ClassWord::ForwardFailed(p) => ClassWord::Pointer(p),
        w => w,
    }
    &&& post.fwdptr == pre.fwdptr
    &&& post.marked == pre.marked
}

/// Of two `try_mark` calls racing on one header whose mark bit is clear —
/// modelled as the two orders in which their atomic updates can land —
/// exactly one call returns true.
pub proof fn lemma_try_mark_exclusive(h0: Header, h1: Header, h2: Header, r1: bool, r2: bool)
    requires
        !h0.marked,
        try_mark_transition(h0, h1, r1),
        try_mark_transition(h1, h2, r2),
    ensures
        r1 != r2,
{
}

/// Repairing a class pointer is idempotent: on an already-repaired header the
/// second repair is a no-op.
pub proof fn lemma_repair_idempotent(h0: Header, h1: Header, h2: Header)
    requires
        repair_transition(h0, h1),
        repair_transition(h1, h2),
    ensures
        h2 == h1,
{
}

/// A typed, nullable handle to a heap object.
pub struct Ref<T> {
    pub ptr: Address,
    pub phantom: core::marker::PhantomData<T>,
}

impl<T> Ref<T> {
    /// The null reference.
    pub fn null() -> (r: Ref<T>)
        ensures
            r.ptr.0 == 0,
    {
        Ref { ptr: Address(0), phantom: core::marker::PhantomData }
    }

    /// Reinterprets the handle at another type; the address is unchanged.
    pub fn cast<R>(&self) -> (r: Ref<R>)
        ensures
            r.ptr == self.ptr,
    {
        Ref { ptr: self.ptr, phantom: core::marker::PhantomData }
    }

    pub fn address(&self) -> (r: Address)
        ensures
            r == self.ptr,
    {
        self.ptr
    }

    /// Wraps an address as a typed handle.
    pub fn from_address(addr: Address) -> (r: Ref<T>)
        ensures
            r.ptr == addr,
    {
        Ref { ptr: addr, phantom: core::marker::PhantomData }
    }

    /// The address the handle denotes, in spec form.
    pub open spec fn spec_address(self) -> Address {
        self.ptr
    }
}

impl<T> Copy for Ref<T> {

}

impl<T> Clone for Ref<T> {
    fn clone(&self) -> (r: Self) {
        *self
    }
}

/// The payload of a heap object, in the four shapes the layout model knows.
/// Non-reference payload bytes are irrelevant to the collector and are kept
/// opaque; only lengths and reference slots are modelled.
#[derive(Clone, Debug)]
pub enum ObjBody {
    /// Fixed-size instance: the values of its reference-typed fields, one per
    /// entry of the class's `ref_fields`.
    Fixed { fields: Vec<Address> },
    /// Array of references (or a free-list array), one slot per element.
    RefArray { elements: Vec<Address> },
    /// Array of primitive elements; the element width comes from the class.
    PrimArray { length: usize },
    /// Length-prefixed immutable byte buffer.
    Str { length: usize },
}

/// Byte size of an object with payload `body` and class descriptor `cd`,
/// derived from the size policy and the length field alone.
pub open spec fn spec_body_size(body: ObjBody, cd: ClassData) -> int {
    match body {
        ObjBody::Fixed { .. } => match cd.size {
            ClassSize::Fixed(s) => s as int,
            _ => 0,
        },
        ObjBody::RefArray { elements } => class::array_size(elements@.len(), 8),
        ObjBody::PrimArray { length } => match cd.size {
            ClassSize::Array(e) => class::array_size(length as nat, e as nat),
            _ => 0,
        },
        ObjBody::Str { length } => class::str_size(length as nat),
    }
}

/// A heap object: its address, its header, and its payload. The class is
/// carried as an index into the heap's class table; the header's class word
/// holds the matching vtable address whenever the header is in a plain state.
#[derive(Clone, Debug)]
pub struct Obj {
    pub address: Address,
    pub header: Header,
    pub cls: ClassDefId,
    pub body: ObjBody,
}

impl Obj {
    /// Byte size of this object, derived from the class descriptor and the
    /// length field alone (mathematical form).
    pub open spec fn spec_size(self, classes: Seq<ClassData>) -> int {
        spec_body_size(self.body, classes[self.cls.0 as int])
    }

    /// Well-formed against a class table: the class exists, the payload shape
    /// matches the class's size policy, the address is a nonnull aligned
    /// location, and the object fits the address space.
    pub open spec fn wf(self, classes: Seq<ClassData>) -> bool {
        &&& self.cls.0 < classes.len()
        &&& classes[self.cls.0 as int].wf()
        &&& match self.body {
            ObjBody::Fixed { fields } => {
                &&& classes[self.cls.0 as int].size is Fixed
                &&& fields@.len() == classes[self.cls.0 as int].ref_fields@.len()
            },
            ObjBody::RefArray { .. } => classes[self.cls.0 as int].size is ObjArray
                || classes[self.cls.0 as int].size is FreeArray,
            ObjBody::PrimArray { .. } => classes[self.cls.0 as int].size is Array,
            ObjBody::Str { .. } => classes[self.cls.0 as int].size is Str,
        }
        &&& self.address.0 != 0
        &&& self.address.0 % 8 == 0
        &&& self.spec_size(classes) <= usize::MAX - 8
        &&& self.address.0 + self.spec_size(classes) <= usize::MAX
    }

    pub fn address(&self) -> (r: Address)
        ensures
            r == self.address,
    {
        self.address
    }

    pub fn header(&self) -> (h: &Header)
        ensures
            *h == self.header,
    {
        &self.header
    }

    pub fn header_mut(&mut self) -> (h: &mut Header)
        ensures
            *h == old(self).header,
            final(self).header == *final(h),
            final(self).address == old(self).address,
            final(self).cls == old(self).cls,
            final(self).body == old(self).body,
    {
        &mut self.header
    }

    /// The payload of the object.
    pub fn data(&self) -> (b: &ObjBody)
        ensures
            *b == self.body,
    {
        &self.body
    }

    /// Whether the object is an array of references.
    pub fn is_array_ref(&self) -> (r: bool)
        ensures
            r == (self.body is RefArray),
    {
        match self.body {
            ObjBody::RefArray { .. } => true,
            _ => false,
        }
    }

    /// Exact byte size of the object, pointer-aligned, computed in O(1) from
    /// the class descriptor and the length field.
    pub fn size(&self, classes: &Vec<ClassData>) -> (r: usize)
        requires
            self.wf(classes@),
        ensures
            r == self.spec_size(classes@),
    {
        match &self.body {
            ObjBody::Fixed { .. } => match classes[self.cls.0].size {
                ClassSize::Fixed(s) => s,
                _ => 0,
            },
            ObjBody::RefArray { elements } => {
                proof {
                    mem::lemma_align_up(24 + elements@.len() * 8 as int, 8);
                }
                mem::align_usize(24 + elements.len() * 8, 8)
            },
            ObjBody::PrimArray { length } => match classes[self.cls.0].size {
                ClassSize::Array(e) => {
                    proof {
                        mem::lemma_align_up(24 + (*length) * (e as int), 8);
                    }
                    mem::align_usize(24 + *length * e, 8)
                },
                _ => 0,
            },
            ObjBody::Str { length } => {
                proof {
                    mem::lemma_align_up(24 + (*length) as int, 8);
                }
                mem::align_usize(24 + *length, 8)
            },
        }
    }

    /// How many reference-typed slots the object has.
    pub open spec fn spec_num_ref_slots(self) -> int {
        match self.body {
            ObjBody::Fixed { fields } => fields@.len() as int,
            ObjBody::RefArray { elements } => elements@.len() as int,
            _ => 0,
        }
    }

    /// The value held in reference slot `i`.
    pub open spec fn spec_ref_slot(self, i: int) -> Address {
        match self.body {
            ObjBody::Fixed { fields } => fields@[i],
            ObjBody::RefArray { elements } => elements@[i],
            _ => Address(0),
        }
    }

    /// The byte address of reference slot `i`: the array element slot, or the
    /// field offset the class descriptor records.
    pub open spec fn spec_ref_slot_addr(self, classes: Seq<ClassData>, i: int) -> int {
        match self.body {
            ObjBody::Fixed { .. } => self.address.0 + classes[self.cls.0 as int].ref_fields@[i],
            ObjBody::RefArray { .. } => self.address.0 + 24 + 8 * i,
            _ => 0,
        }
    }

    pub fn num_ref_slots(&self) -> (r: usize)
        ensures
            r == self.spec_num_ref_slots(),
    {
        match &self.body {
            ObjBody::Fixed { fields } => fields.len(),
            ObjBody::RefArray { elements } => elements.len(),
            _ => 0,
        }
    }

    pub fn get_ref_slot(&self, i: usize) -> (r: Address)
        requires
            i < self.spec_num_ref_slots(),
        ensures
            r == self.spec_ref_slot(i as int),
    {
        match &self.body {
            ObjBody::Fixed { fields } => fields[i],
            ObjBody::RefArray { elements } => elements[i],
            _ => Address(0),
        }
    }

    /// Rewrites reference slot `i`; everything else is unchanged.
    pub fn set_ref_slot(&mut self, i: usize, value: Address)
        requires
            i < old(self).spec_num_ref_slots(),
        ensures
            final(self).spec_num_ref_slots() == old(self).spec_num_ref_slots(),
            final(self).spec_ref_slot(i as int) == value,
            forall|j: int| 0 <= j < old(self).spec_num_ref_slots() && j != i
                ==> final(self).spec_ref_slot(j) == old(self).spec_ref_slot(j),
            final(self).address == old(self).address,
            final(self).header == old(self).header,
            final(self).cls == old(self).cls,
            (final(self).body is Fixed) == (old(self).body is Fixed),
            (final(self).body is RefArray) == (old(self).body is RefArray),
            forall|c: Seq<ClassData>| final(self).spec_size(c) == old(self).spec_size(c),
    {
        match &mut self.body {
            ObjBody::Fixed { fields } => {
                fields.set(i, value);
            },
            ObjBody::RefArray { elements } => {
                elements.set(i, value);
            },
            _ => {},
        }
    }

    /// Byte address of reference slot `i`.
    pub fn ref_slot_addr(&self, classes: &Vec<ClassData>, i: usize) -> (r: usize)
        requires
            self.wf(classes@),
            i < self.spec_num_ref_slots(),
        ensures
            r == self.spec_ref_slot_addr(classes@, i as int),
            self.address.0 <= r,
            r + 8 <= self.address.0 + self.spec_size(classes@),
    {
        match &self.body {
            ObjBody::Fixed { .. } => self.address.0 + classes[self.cls.0].ref_fields[i],
            ObjBody::RefArray { elements } => {
                proof {
                    mem::lemma_align_up(24 + elements@.len() * 8 as int, 8);
                }
                self.address.0 + 24 + 8 * i
            },
            _ => 0,
        }
    }

    /// How many of the object's reference slots lie strictly below `limit` —
    /// the bounded variant of reference enumeration that card-scoped scanning
    /// uses, so that a card crossed by a large array visits only the elements
    /// that fall within the card.
    pub fn num_ref_slots_within(&self, classes: &Vec<ClassData>, limit: Address) -> (r: usize)
        requires
            self.wf(classes@),
        ensures
            r <= self.spec_num_ref_slots(),
            forall|i: int| 0 <= i < r ==> self.spec_ref_slot_addr(classes@, i) < limit.0,
            forall|i: int| r <= i < self.spec_num_ref_slots()
                ==> self.spec_ref_slot_addr(classes@, i) >= limit.0,
    {
        match &self.body {
            ObjBody::RefArray { elements } => {
                if limit.0 <= self.address.0 + 24 {
                    return 0;
                }
                let d: usize = limit.0 - (self.address.0 + 24);
                let avail: usize = (d - 1) / 8 + 1;
                proof {
                    vstd::arithmetic::div_mod::lemma_fundamental_div_mod(d - 1, 8);
                    vstd::arithmetic::div_mod::lemma_mod_bound(d - 1, 8);
                }
                if avail < elements.len() {
                    avail
                } else {
                    elements.len()
                }
            },
            ObjBody::Fixed { fields } => {
                let offsets = &classes[self.cls.0].ref_fields;
                let total = fields.len();
                let mut n: usize = 0;
                while n < total && self.address.0 + offsets[n] < limit.0
                    invariant
                        n <= total,
                        total == self.spec_num_ref_slots(),
                        self.wf(classes@),
                        self.body is Fixed,
                        offsets@ == classes@[self.cls.0 as int].ref_fields@,
                        forall|i: int| 0 <= i < n
                            ==> self.spec_ref_slot_addr(classes@, i) < limit.0,
                    decreases total - n,
                {
                    n = n + 1;
                }
                n
            },
            _ => 0,
        }
    }
}

/// Typed view of a testing/assertion object: a header and a failure flag.
pub struct Testing {
    pub header: Header,
    pub failed: bool,
}

impl Testing {
    pub fn has_failed(&self) -> (r: bool)
        ensures
            r == self.failed,
    {
        self.failed
    }
}

/// Typed view of a string object: header, length field, byte content.
pub struct Str {
    pub header: Header,
    pub content: Vec<u8>,
}

impl Str {
    pub fn header(&self) -> (h: &Header)
        ensures
            *h == self.header,
    {
        &self.header
    }

    pub fn header_mut(&mut self) -> (h: &mut Header)
        ensures
            *h == old(self).header,
            final(self).header == *final(h),
            final(self).content == old(self).content,
    {
        &mut self.header
    }

    pub fn len(&self) -> (r: usize)
        ensures
            r == self.content@.len(),
    {
        self.content.len()
    }

    pub fn data(&self) -> (r: &Vec<u8>)
        ensures
            *r == self.content,
    {
        &self.content
    }

    /// Raw byte size of the string object: header, length field, content.
    /// The heap stores it rounded up to pointer alignment ([`class::str_size`]).
    pub fn size(&self) -> (r: usize)
        requires
            self.content@.len() + 24 <= usize::MAX,
        ensures
            r == 16 + 8 + self.content@.len(),
    {
        16 + 8 + self.content.len()
    }
}

/// Element types an array object can hold, each with its byte width and
/// whether its slots carry heap references.
pub trait ArrayElement: Sized {
    /// Byte width of one element (mathematical form).
    spec fn spec_width() -> int;

    /// Whether the element slots hold heap references.
    spec fn spec_is_ref() -> bool;

    /// Byte width of one element.
    fn element_width() -> (r: usize)
        ensures
            r == Self::spec_width(),
            1 <= r <= 8,
    ;

    /// Whether the element slots hold heap references.
    fn is_ref() -> (r: bool)
        ensures
            r == Self::spec_is_ref(),
    ;
}

impl ArrayElement for bool {
    open spec fn spec_width() -> int {
        1
    }

    open spec fn spec_is_ref() -> bool {
        false
    }

    fn element_width() -> usize {
        1
    }

    fn is_ref() -> bool {
        false
    }
}

impl ArrayElement for u8 {
    open spec fn spec_width() -> int {
        1
    }

    open spec fn spec_is_ref() -> bool {
        false
    }

    fn element_width() -> usize {
        1
    }

    fn is_ref() -> bool {
        false
    }
}

impl ArrayElement for char {
    open spec fn spec_width() -> int {
        4
    }

    open spec fn spec_is_ref() -> bool {
        false
    }

    fn element_width() -> usize {
        4
    }

    fn is_ref() -> bool {
        false
    }
}

impl ArrayElement for i32 {
    open spec fn spec_width() -> int {
        4
    }

    open spec fn spec_is_ref() -> bool {
        false
    }

    fn element_width() -> usize {
        4
    }

    fn is_ref() -> bool {
        false
    }
}

impl ArrayElement for i64 {
    open spec fn spec_width() -> int {
        8
    }

    open spec fn spec_is_ref() -> bool {
        false
    }

    fn element_width() -> usize {
        8
    }

    fn is_ref() -> bool {
        false
    }
}

impl ArrayElement for Ref<Str> {
    open spec fn spec_width() -> int {
        8
    }

    open spec fn spec_is_ref() -> bool {
        true
    }

    fn element_width() -> usize {
        8
    }

    fn is_ref() -> bool {
        true
    }
}

/// Typed view of an array object: header, length field, elements.
pub struct Array<T> {
    pub header: Header,
    pub elements: Vec<T>,
}

impl<T: Copy + ArrayElement> Array<T> {
    pub fn header(&self) -> (h: &Header)
        ensures
            *h == self.header,
    {
        &self.header
    }

    pub fn header_mut(&mut self) -> (h: &mut Header)
        ensures
            *h == old(self).header,
            final(self).header == *final(h),
            final(self).elements == old(self).elements,
    {
        &mut self.header
    }

    pub fn len(&self) -> (r: usize)
        ensures
            r == self.elements@.len(),
    {
        self.elements.len()
    }

    pub fn data(&self) -> (r: &Vec<T>)
        ensures
            *r == self.elements,
    {
        &self.elements
    }

    pub fn data_mut(&mut self) -> (r: &mut Vec<T>)
        ensures
            *r == old(self).elements,
            final(self).elements == *final(r),
            final(self).header == old(self).header,
    {
        &mut self.elements
    }

    pub fn get_at(&self, idx: usize) -> (r: T)
        requires
            idx < self.elements@.len(),
        ensures
            r == self.elements@[idx as int],
    {
        self.elements[idx]
    }

    pub fn set_at(&mut self, idx: usize, val: T)
        requires
            idx < old(self).elements@.len(),
        ensures
            final(self).elements@ == old(self).elements@.update(idx as int, val),
            final(self).header == old(self).header,
    {
        self.elements.set(idx, val);
    }

    /// Raw byte size of the array object: header, length field, elements.
    /// The heap stores it rounded up to pointer alignment
    /// ([`class::array_size`]).
    pub fn size(&self) -> (r: usize)
        requires
            24 + self.elements@.len() * T::spec_width() <= usize::MAX,
        ensures
            r == 16 + 8 + self.elements@.len() * T::spec_width(),
    {
        16 + 8 + self.elements.len() * T::element_width()
    }
}

pub type BoolArray = Array<bool>;

pub type ByteArray = Array<u8>;

pub type CharArray = Array<char>;

pub type IntArray = Array<i32>;

pub type LongArray = Array<i64>;

pub type StrArray = Array<Ref<Str>>;

/// Byte offset of the length field of an array object.
pub fn offset_of_array_length() -> (r: i32)
    ensures
        r == 16,
{
    16
}

/// Byte offset of the first element of an array object.
pub fn offset_of_array_data() -> (r: i32)
    ensures
        r == 24,
{
    24
}

/// A throwable object: message, backtrace and the collected stack trace
/// elements, each a reference into the heap.
pub struct Throwable {
    pub header: Header,
    pub msg: Ref<Str>,
    pub backtrace: Ref<IntArray>,
    pub elements: Ref<Obj>,
}

/// An error object; it shares the throwable layout.
pub struct Error {
    pub header: Header,
    pub msg: Ref<Str>,
    pub backtrace: Ref<IntArray>,
    pub elements: Ref<Obj>,
}

/// An exception object; it shares the throwable layout.
pub struct Exception {
    pub header: Header,
    pub msg: Ref<Str>,
    pub backtrace: Ref<IntArray>,
    pub elements: Ref<Obj>,
}

/// One frame of a collected stack trace.
pub struct StackTraceElement {
    pub header: Header,
    pub name: Ref<Str>,
    pub line: i32,
}

} // verus!
