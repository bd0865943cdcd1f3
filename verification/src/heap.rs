//! The heap: class table, the four spaces, their object layouts, and the
//! mutator-facing operations — allocation and the write barrier.
//!
//! Objects are modelled explicitly: each space carries the list of objects
//! living in it, in address order. The young and old generations are bump
//! layouts (each object starts where the previous one ends); the large space
//! holds independently placed objects that never move.

use vstd::prelude::*;
use crate::card::{CardTable, spec_card_index, spec_card_base};
use crate::class::{ClassData, ClassDefId, ClassSize};
use crate::crossing::CrossingMap;
use crate::class;
use crate::mem;
use crate::object::{spec_body_size, Address, ClassWord, Header, Obj, ObjBody, Ref};
use crate::space::Space;

verus! {

/// Objects at or above this byte size are allocated in the large-object
/// space and are never moved; the bound itself counts as large.
pub const LARGE_OBJECT_THRESHOLD: usize = 4096;

/// Every object of `objs` is well-formed against the class table.
pub open spec fn all_wf(objs: Seq<Obj>, classes: Seq<ClassData>) -> bool {
    forall|i: int| 0 <= i < objs.len() ==> (#[trigger] objs[i]).wf(classes)
}

/// `objs` is a bump layout filling exactly `[base, top)`: the first object
/// starts at `base`, each object starts where the previous ends, and the last
/// ends at `top`.
pub open spec fn contiguous(objs: Seq<Obj>, base: int, top: int, classes: Seq<ClassData>) -> bool {
    &&& (objs.len() == 0 ==> top == base)
    &&& (objs.len() > 0 ==> objs[0].address.0 == base
        && objs[objs.len() - 1].address.0 + objs[objs.len() - 1].spec_size(classes) == top)
    &&& forall|i: int| 0 <= i < objs.len() - 1
        ==> (#[trigger] objs[i + 1]).address.0 == objs[i].address.0 + objs[i].spec_size(classes)
}

/// Every object of `objs` lies within `[lo, hi)`.
pub open spec fn objs_within(objs: Seq<Obj>, lo: int, hi: int, classes: Seq<ClassData>) -> bool {
    forall|i: int| 0 <= i < objs.len()
        ==> lo <= (#[trigger] objs[i]).address.0
            && objs[i].address.0 + objs[i].spec_size(classes) <= hi
}

/// Adjacent objects of `objs` do not overlap (they are kept in address order).
pub open spec fn objs_disjoint(objs: Seq<Obj>, classes: Seq<ClassData>) -> bool {
    forall|i: int| 0 <= i < objs.len() - 1
        ==> (#[trigger] objs[i]).address.0 + objs[i].spec_size(classes)
            <= objs[i + 1].address.0
}

/// Every header of `objs` has a plain class pointer matching the object's
/// class and an aligned relocation address; the mark bit is free (the
/// marking phase owns it).
pub open spec fn headers_plain(objs: Seq<Obj>, vtables: Seq<Address>) -> bool {
    forall|i: int| 0 <= i < objs.len() ==> {
        &&& (#[trigger] objs[i]).header.vtable
            == ClassWord::Pointer(vtables[objs[i].cls.0 as int])
        &&& objs[i].header.fwdptr.0 % 8 == 0
    }
}

/// No object of `objs` carries a mark bit.
pub open spec fn all_unmarked(objs: Seq<Obj>) -> bool {
    forall|i: int| 0 <= i < objs.len() ==> !(#[trigger] objs[i]).header.marked
}

/// Every header of `objs` is in the mutator-time state: a plain class pointer
/// matching the object's class, mark bit clear, relocation address aligned.
pub open spec fn clean_headers(objs: Seq<Obj>, vtables: Seq<Address>) -> bool {
    headers_plain(objs, vtables) && all_unmarked(objs)
}

/// Whether some object of `objs` starts at address `a`.
pub open spec fn objs_has_start(objs: Seq<Obj>, a: int) -> bool {
    exists|i: int| 0 <= i < objs.len() && (#[trigger] objs[i]).address.0 == a
}

/// Index of the object of `objs` starting at `a` (meaningful only when
/// `objs_has_start(objs, a)` holds).
pub open spec fn objs_index_of(objs: Seq<Obj>, a: int) -> int {
    choose|i: int| 0 <= i < objs.len() && (#[trigger] objs[i]).address.0 == a
}

/// The heap.
pub struct Heap {
    pub classes: Vec<ClassData>,
    /// Address of each class's vtable descriptor, in the permanent space;
    /// `vtables[k]` belongs to class `k`.
    pub vtables: Vec<Address>,
    pub young: Space,
    pub old: Space,
    pub large: Space,
    pub perm: Space,
    pub young_objs: Vec<Obj>,
    pub old_objs: Vec<Obj>,
    pub large_objs: Vec<Obj>,
    pub card_table: CardTable,
    pub crossing: CrossingMap,
}

impl Heap {
    /// A reference value is valid when it is null or names the start of a
    /// live object.
    pub open spec fn valid_ref(self, v: Address) -> bool {
        ||| v.0 == 0
        ||| self.has_obj_at(v.0 as int)
    }

    /// Whether a live object starts at address `a`.
    pub open spec fn has_obj_at(self, a: int) -> bool {
        ||| objs_has_start(self.young_objs@, a)
        ||| objs_has_start(self.old_objs@, a)
        ||| objs_has_start(self.large_objs@, a)
    }

    /// The live object starting at `a` (meaningful only when `has_obj_at`).
    pub open spec fn spec_obj_at(self, a: int) -> Obj {
        if objs_has_start(self.young_objs@, a) {
            self.young_objs@[objs_index_of(self.young_objs@, a)]
        } else if objs_has_start(self.old_objs@, a) {
            self.old_objs@[objs_index_of(self.old_objs@, a)]
        } else {
            self.large_objs@[objs_index_of(self.large_objs@, a)]
        }
    }

    /// Every reference slot of every object of `objs` holds a valid value.
    pub open spec fn slots_valid(self, objs: Seq<Obj>) -> bool {
        forall|i: int, j: int| 0 <= i < objs.len()
            && 0 <= j < (#[trigger] objs[i]).spec_num_ref_slots()
            ==> self.valid_ref(#[trigger] objs[i].spec_ref_slot(j))
    }

    /// Every reference slot of every live object holds a valid value.
    pub open spec fn refs_valid(self) -> bool {
        &&& self.slots_valid(self.young_objs@)
        &&& self.slots_valid(self.old_objs@)
        &&& self.slots_valid(self.large_objs@)
    }

    /// The heap invariant, as the mutator sees it between collections.
    pub open spec fn wf(self) -> bool {
        &&& self.wf_marked()
        &&& all_unmarked(self.young_objs@)
        &&& all_unmarked(self.old_objs@)
        &&& all_unmarked(self.large_objs@)
    }

    /// The heap invariant with the mark bits free: what holds while a
    /// collection's phases are at work on the headers.
    pub open spec fn wf_marked(self) -> bool {
        &&& self.classes@.len() == self.vtables@.len()
        &&& forall|k: int| 0 <= k < self.classes@.len() ==> (#[trigger] self.classes@[k]).wf()
        &&& forall|k: int| 0 <= k < self.vtables@.len()
            ==> (#[trigger] self.vtables@[k]).0 != 0 && self.vtables@[k].0 % 8 == 0
        &&& self.young.wf() && self.old.wf() && self.large.wf() && self.perm.wf()
        &&& 0 < self.young.base
        &&& self.young.end <= self.old.base
        &&& self.old.end <= self.large.base
        &&& self.large.end <= self.perm.base
        &&& self.perm.end <= usize::MAX
        &&& self.old.base % 512 == 0 && self.old.end % 512 == 0
        &&& all_wf(self.young_objs@, self.classes@)
        &&& all_wf(self.old_objs@, self.classes@)
        &&& all_wf(self.large_objs@, self.classes@)
        &&& contiguous(self.young_objs@, self.young.base as int, self.young.top as int,
            self.classes@)
        &&& contiguous(self.old_objs@, self.old.base as int, self.old.top as int, self.classes@)
        &&& objs_within(self.young_objs@, self.young.base as int, self.young.top as int,
            self.classes@)
        &&& objs_within(self.old_objs@, self.old.base as int, self.old.top as int, self.classes@)
        &&& objs_within(self.large_objs@, self.large.base as int, self.large.top as int,
            self.classes@)
        &&& objs_disjoint(self.large_objs@, self.classes@)
        &&& headers_plain(self.young_objs@, self.vtables@)
        &&& headers_plain(self.old_objs@, self.vtables@)
        &&& headers_plain(self.large_objs@, self.vtables@)
        &&& self.refs_valid()
        &&& self.card_table.base == self.old.base
        &&& self.card_table.wf()
        &&& self.card_table.spec_len() * 512 == self.old.end - self.old.base
        &&& self.crossing.spec_len() == self.card_table.spec_len()
    }

    /// A fresh heap: four empty spaces laid out back to back, with the card
    /// table and crossing map sized to the old generation.
    #[verifier::rlimit(100)]
    #[verifier::spinoff_prover]
    pub fn new(young_size: usize, old_size: usize, large_size: usize, perm_size: usize)
        -> (r: Heap)
        requires
            young_size % 512 == 0,
            old_size % 512 == 0,
            large_size % 512 == 0,
            perm_size % 512 == 0,
            512 + young_size + old_size + large_size + perm_size <= usize::MAX,
        ensures
            r.wf(),
            r.classes@.len() == 0,
            r.young_objs@.len() == 0,
            r.old_objs@.len() == 0,
            r.large_objs@.len() == 0,
            r.young.spec_free() == young_size,
            r.old.spec_free() == old_size,
            r.large.spec_free() == large_size,
            r.perm.spec_free() == perm_size,
    {
        let young_base: usize = 512;
        let old_base: usize = young_base + young_size;
        let large_base: usize = old_base + old_size;
        let perm_base: usize = large_base + large_size;
        let perm_end: usize = perm_base + perm_size;
        let cards: usize = old_size / 512;
        proof {
            vstd::arithmetic::div_mod::lemma_fundamental_div_mod(old_size as int, 512);
        }
        Heap {
            classes: Vec::new(),
            vtables: Vec::new(),
            young: Space::new(young_base, old_base),
            old: Space::new(old_base, large_base),
            large: Space::new(large_base, perm_base),
            perm: Space::new(perm_base, perm_end),
            young_objs: Vec::new(),
            old_objs: Vec::new(),
            large_objs: Vec::new(),
            card_table: CardTable::new(old_base, cards),
            crossing: CrossingMap::new(cards),
        }
    }

    /// Registers a class: stores its descriptor and gives it a vtable slot in
    /// the permanent space. Succeeds exactly when the permanent space has
    /// room for the vtable.
    pub fn register_class(&mut self, data: ClassData) -> (r: Option<ClassDefId>)
        requires
            old(self).wf(),
            data.wf(),
        ensures
            final(self).wf(),
            r is Some <==> old(self).perm.spec_free() >= 16,
            match r {
                Some(id) => {
                    &&& id.0 == old(self).classes@.len()
                    &&& final(self).classes@ == old(self).classes@.push(data)
                    &&& final(self).vtables@.len() == old(self).vtables@.len() + 1
                },
                None => final(self).classes@ == old(self).classes@,
            },
            final(self).young_objs@ == old(self).young_objs@,
            final(self).old_objs@ == old(self).old_objs@,
            final(self).large_objs@ == old(self).large_objs@,
            final(self).young == old(self).young,
            final(self).old == old(self).old,
            final(self).large == old(self).large,
            final(self).card_table == old(self).card_table,
            final(self).crossing == old(self).crossing,
            forall|k: int| 0 <= k < old(self).vtables@.len()
                ==> final(self).vtables@[k] == old(self).vtables@[k],
    {
        let vtbl = match self.perm.bump(16) {
            Some(a) => a,
            None => {
                return None;
            },
        };
        let id = ClassDefId(self.classes.len());
        self.classes.push(data);
        self.vtables.push(vtbl);
        proof {
            lemma_all_wf_push_class(self.young_objs@, old(self).classes@, data);
            lemma_all_wf_push_class(self.old_objs@, old(self).classes@, data);
            lemma_all_wf_push_class(self.large_objs@, old(self).classes@, data);
            lemma_layout_push_class(self.young_objs@, old(self).classes@, data);
            lemma_layout_push_class(self.old_objs@, old(self).classes@, data);
            lemma_layout_push_class(self.large_objs@, old(self).classes@, data);
        }
        Some(id)
    }

    /// Places a freshly built, null-initialized object into the young or
    /// large space, routed by size; succeeds exactly when the routed space
    /// has room.
    fn alloc_obj(&mut self, cls: ClassDefId, body: ObjBody, size: usize) -> (r: Option<Address>)
        requires
            old(self).wf(),
            cls.0 < old(self).classes@.len(),
            body_shape_ok(body, old(self).classes@[cls.0 as int]),
            body_slots_null(body),
            size == spec_body_size(body, old(self).classes@[cls.0 as int]),
            size % 8 == 0,
            16 <= size <= usize::MAX - 8,
        ensures
            final(self).wf(),
            final(self).classes@ == old(self).classes@,
            final(self).vtables@ == old(self).vtables@,
            final(self).old_objs@ == old(self).old_objs@,
            final(self).old == old(self).old,
            final(self).perm == old(self).perm,
            final(self).card_table == old(self).card_table,
            final(self).crossing == old(self).crossing,
            r is Some <==> size <= if size >= LARGE_OBJECT_THRESHOLD {
                old(self).large.spec_free()
            } else {
                old(self).young.spec_free()
            },
            match r {
                Some(a) => {
                    let o = fresh_obj(a, cls, body, old(self).vtables@[cls.0 as int]);
                    if size >= LARGE_OBJECT_THRESHOLD {
                        &&& a.0 == old(self).large.top
                        &&& final(self).large_objs@ == old(self).large_objs@.push(o)
                        &&& final(self).young_objs@ == old(self).young_objs@
                        &&& final(self).young == old(self).young
                    } else {
                        &&& a.0 == old(self).young.top
                        &&& final(self).young_objs@ == old(self).young_objs@.push(o)
                        &&& final(self).large_objs@ == old(self).large_objs@
                        &&& final(self).large == old(self).large
                    }
                },
                None => *final(self) == *old(self),
            },
    {
        let vtbl = self.vtables[cls.0];
        let ghost pre = *self;
        if size >= LARGE_OBJECT_THRESHOLD {
            let a = match self.large.bump(size) {
                Some(a) => a,
                None => {
                    return None;
                },
            };
            let o = Obj {
                address: a,
                header: Header {
                    vtable: ClassWord::Pointer(vtbl),
                    fwdptr: Address(0),
                    marked: false,
                },
                cls,
                body,
            };
            proof {
                lemma_large_push(pre.large_objs@, o, pre.large.base as int,
                    pre.large.top as int, pre.classes@);
                lemma_clean_push(pre.large_objs@, o, pre.vtables@);
            }
            self.large_objs.push(o);
            proof {
                self.lemma_refs_valid_after_push(pre, o);
            }
            Some(a)
        } else {
            let a = match self.young.bump(size) {
                Some(a) => a,
                None => {
                    return None;
                },
            };
            let o = Obj {
                address: a,
                header: Header {
                    vtable: ClassWord::Pointer(vtbl),
                    fwdptr: Address(0),
                    marked: false,
                },
                cls,
                body,
            };
            proof {
                lemma_layout_push(pre.young_objs@, o, pre.young.base as int,
                    pre.young.top as int, pre.classes@);
                lemma_clean_push(pre.young_objs@, o, pre.vtables@);
            }
            self.young_objs.push(o);
            proof {
                self.lemma_refs_valid_after_push(pre, o);
            }
            Some(a)
        }
    }

    /// After pushing a null-initialized object to one of `pre`'s object
    /// lists, every reference slot of the new heap is still valid.
    proof fn lemma_refs_valid_after_push(self, pre: Heap, o: Obj)
        requires
            pre.refs_valid(),
            body_slots_null(o.body),
            self.young_objs@ == pre.young_objs@ || self.young_objs@ == pre.young_objs@.push(o),
            self.old_objs@ == pre.old_objs@ || self.old_objs@ == pre.old_objs@.push(o),
            self.large_objs@ == pre.large_objs@ || self.large_objs@ == pre.large_objs@.push(o),
        ensures
            self.refs_valid(),
    {
        assert forall|v: Address| pre.valid_ref(v) implies self.valid_ref(v) by {
            if v.0 != 0 {
                if objs_has_start(pre.young_objs@, v.0 as int) {
                    if self.young_objs@ != pre.young_objs@ {
                        lemma_has_start_push(pre.young_objs@, o, v.0 as int);
                    }
                } else if objs_has_start(pre.old_objs@, v.0 as int) {
                    if self.old_objs@ != pre.old_objs@ {
                        lemma_has_start_push(pre.old_objs@, o, v.0 as int);
                    }
                } else {
                    if self.large_objs@ != pre.large_objs@ {
                        lemma_has_start_push(pre.large_objs@, o, v.0 as int);
                    }
                }
            }
        }
        self.lemma_slots_valid_list(pre, o, pre.young_objs@, self.young_objs@);
        self.lemma_slots_valid_list(pre, o, pre.old_objs@, self.old_objs@);
        self.lemma_slots_valid_list(pre, o, pre.large_objs@, self.large_objs@);
    }

    /// Slot validity for one list, whether or not the new object went there.
    proof fn lemma_slots_valid_list(self, pre: Heap, o: Obj, prev: Seq<Obj>, cur: Seq<Obj>)
        requires
            pre.slots_valid(prev),
            body_slots_null(o.body),
            cur == prev || cur == prev.push(o),
            forall|v: Address| pre.valid_ref(v) ==> self.valid_ref(v),
        ensures
            self.slots_valid(cur),
    {
        assert forall|i: int, j: int| 0 <= i < cur.len()
            && 0 <= j < (#[trigger] cur[i]).spec_num_ref_slots()
            implies self.valid_ref(#[trigger] cur[i].spec_ref_slot(j)) by {
            if i < prev.len() {
                assert(cur[i] == prev[i]);
                assert(pre.valid_ref(prev[i].spec_ref_slot(j)));
            } else {
                assert(cur[i] == o);
                assert(o.spec_ref_slot(j).0 == 0);
            }
        }
    }

    /// Allocates a fixed-size instance of class `cls`, its reference fields
    /// null; succeeds exactly when the routed space has room.
    #[verifier::rlimit(50)]
    pub fn alloc_object(&mut self, cls: ClassDefId) -> (r: Option<Address>)
        requires
            old(self).wf(),
            cls.0 < old(self).classes@.len(),
            old(self).classes@[cls.0 as int].size is Fixed,
        ensures
            final(self).wf(),
            alloc_frame(*old(self), *final(self)),
            r is Some <==> cd_fixed_size(old(self).classes@[cls.0 as int]) <= spec_routed_free(
                *old(self), cd_fixed_size(old(self).classes@[cls.0 as int])),
            match r {
                Some(a) => alloc_outcome(*old(self), *final(self), a, cls,
                    cd_fixed_size(old(self).classes@[cls.0 as int])),
                None => *final(self) == *old(self),
            },
            r is Some ==> final(self).young_objs@.len() + final(self).large_objs@.len()
                == old(self).young_objs@.len() + old(self).large_objs@.len() + 1,
            r is Some ==> (r->Some_0).0 != 0,
    {
        let n = self.classes[cls.0].ref_fields.len();
        let size = match self.classes[cls.0].size {
            ClassSize::Fixed(s) => s,
            _ => 0,
        };
        let body = ObjBody::Fixed { fields: null_refs(n) };
        self.alloc_obj(cls, body, size)
    }

    /// Allocates an array of `len` null references; succeeds exactly when
    /// the routed space has room.
    pub fn alloc_ref_array(&mut self, cls: ClassDefId, len: usize) -> (r: Option<Address>)
        requires
            old(self).wf(),
            cls.0 < old(self).classes@.len(),
            old(self).classes@[cls.0 as int].size is ObjArray
                || old(self).classes@[cls.0 as int].size is FreeArray,
            24 + len * 8 <= usize::MAX - 16,
        ensures
            final(self).wf(),
            alloc_frame(*old(self), *final(self)),
            r is Some <==> class::array_size(len as nat, 8) <= spec_routed_free(
                *old(self), class::array_size(len as nat, 8)),
            match r {
                Some(a) => {
                    &&& alloc_outcome(*old(self), *final(self), a, cls,
                        class::array_size(len as nat, 8))
                    &&& a.0 != 0
                    &&& spec_last_alloc(*old(self), *final(self),
                        class::array_size(len as nat, 8)).spec_num_ref_slots() == len
                },
                None => *final(self) == *old(self),
            },
    {
        proof {
            mem::lemma_align_up(24 + len * 8 as int, 8);
        }
        let size = mem::align_usize(24 + len * 8, 8);
        let body = ObjBody::RefArray { elements: null_refs(len) };
        self.alloc_obj(cls, body, size)
    }

    /// Allocates an array of `len` primitive elements, the width coming from
    /// the class; succeeds exactly when the routed space has room.
    pub fn alloc_prim_array(&mut self, cls: ClassDefId, len: usize) -> (r: Option<Address>)
        requires
            old(self).wf(),
            cls.0 < old(self).classes@.len(),
            old(self).classes@[cls.0 as int].size is Array,
            24 + len * cd_element_size(old(self).classes@[cls.0 as int]) <= usize::MAX - 16,
        ensures
            final(self).wf(),
            alloc_frame(*old(self), *final(self)),
            r is Some <==> class::array_size(len as nat,
                cd_element_size(old(self).classes@[cls.0 as int]) as nat) <= spec_routed_free(
                *old(self), class::array_size(len as nat,
                    cd_element_size(old(self).classes@[cls.0 as int]) as nat)),
            match r {
                Some(a) => {
                    &&& alloc_outcome(*old(self), *final(self), a, cls,
                        class::array_size(len as nat,
                            cd_element_size(old(self).classes@[cls.0 as int]) as nat))
                    &&& a.0 != 0
                },
                None => *final(self) == *old(self),
            },
    {
        let e = match self.classes[cls.0].size {
            ClassSize::Array(e) => e,
            _ => 0,
        };
        proof {
            mem::lemma_align_up(24 + len * e as int, 8);
        }
        let size = mem::align_usize(24 + len * e, 8);
        let body = ObjBody::PrimArray { length: len };
        self.alloc_obj(cls, body, size)
    }

    /// Allocates a string object of `len` bytes; succeeds exactly when the
    /// routed space has room.
    pub fn alloc_str(&mut self, cls: ClassDefId, len: usize) -> (r: Option<Address>)
        requires
            old(self).wf(),
            cls.0 < old(self).classes@.len(),
            old(self).classes@[cls.0 as int].size is Str,
            len <= usize::MAX - 40,
        ensures
            final(self).wf(),
            alloc_frame(*old(self), *final(self)),
            r is Some <==> class::str_size(len as nat) <= spec_routed_free(
                *old(self), class::str_size(len as nat)),
            match r {
                Some(a) => {
                    &&& alloc_outcome(*old(self), *final(self), a, cls,
                        class::str_size(len as nat))
                    &&& a.0 != 0
                },
                None => *final(self) == *old(self),
            },
    {
        proof {
            mem::lemma_align_up(24 + len as int, 8);
        }
        let size = mem::align_usize(24 + len, 8);
        let body = ObjBody::Str { length: len };
        self.alloc_obj(cls, body, size)
    }

    /// Stores a heap reference into slot `slot` of the object starting at
    /// `obj_addr`. This is the mutator's only path for writing a reference
    /// field, and it carries the write barrier: a store into an
    /// old-generation slot always leaves that slot's card dirty. Returns
    /// whether the object and slot exist; nothing changes when they do not.
    pub fn store_ref(&mut self, obj_addr: Address, slot: usize, value: Address) -> (r: bool)
        requires
            old(self).wf(),
            old(self).valid_ref(value),
        ensures
            final(self).wf(),
            r == can_store(*old(self), obj_addr, slot as int),
            !r ==> *final(self) == *old(self),
            r ==> store_outcome(*old(self), *final(self), obj_addr, slot as int, value),
    {
        if let Some(i) = find_index(&self.young_objs, obj_addr) {
            self.store_young(i, obj_addr, slot, value)
        } else if let Some(i) = find_index(&self.old_objs, obj_addr) {
            self.store_old(i, obj_addr, slot, value)
        } else if let Some(i) = find_index(&self.large_objs, obj_addr) {
            self.store_large(i, obj_addr, slot, value)
        } else {
            false
        }
    }

    /// The young-generation half of [`Heap::store_ref`]; no barrier needed.
    #[verifier::rlimit(100)]
    fn store_young(&mut self, i: usize, obj_addr: Address, slot: usize, value: Address)
        -> (r: bool)
        requires
            old(self).wf(),
            old(self).valid_ref(value),
            i < old(self).young_objs@.len(),
            old(self).young_objs@[i as int].address == obj_addr,
        ensures
            final(self).wf(),
            r == can_store(*old(self), obj_addr, slot as int),
            !r ==> *final(self) == *old(self),
            r ==> store_outcome(*old(self), *final(self), obj_addr, slot as int, value),
    {
        let ghost pre = *self;
        proof {
            lemma_contiguous_disjoint(pre.young_objs@, pre.young.base as int,
                pre.young.top as int, pre.classes@);
            lemma_index_unique(pre.young_objs@, pre.classes@, obj_addr.0 as int);
        }
        if slot >= self.young_objs[i].num_ref_slots() {
            return false;
        }
        let o = vec_index_mut(&mut self.young_objs, i);
        o.set_ref_slot(slot, value);
        proof {
            lemma_list_update(pre.young_objs@, self.young_objs@, i as int,
                pre.classes@, pre.vtables@);
            lemma_contiguous_disjoint(self.young_objs@, pre.young.base as int,
                pre.young.top as int, pre.classes@);
            lemma_index_unique(self.young_objs@, pre.classes@, obj_addr.0 as int);
            self.lemma_store_wf(pre, obj_addr, slot as int, value);
        }
        true
    }

    /// The old-generation half of [`Heap::store_ref`]: the write barrier
    /// dirties the card covering the written slot.
    #[verifier::rlimit(100)]
    fn store_old(&mut self, i: usize, obj_addr: Address, slot: usize, value: Address)
        -> (r: bool)
        requires
            old(self).wf(),
            old(self).valid_ref(value),
            i < old(self).old_objs@.len(),
            old(self).old_objs@[i as int].address == obj_addr,
            !objs_has_start(old(self).young_objs@, obj_addr.0 as int),
        ensures
            final(self).wf(),
            r == can_store(*old(self), obj_addr, slot as int),
            !r ==> *final(self) == *old(self),
            r ==> store_outcome(*old(self), *final(self), obj_addr, slot as int, value),
    {
        let ghost pre = *self;
        proof {
            lemma_contiguous_disjoint(pre.old_objs@, pre.old.base as int,
                pre.old.top as int, pre.classes@);
            lemma_index_unique(pre.old_objs@, pre.classes@, obj_addr.0 as int);
        }
        if slot >= self.old_objs[i].num_ref_slots() {
            return false;
        }
        let slot_addr = self.old_objs[i].ref_slot_addr(&self.classes, slot);
        let o = vec_index_mut(&mut self.old_objs, i);
        o.set_ref_slot(slot, value);
        proof {
            lemma_list_update(pre.old_objs@, self.old_objs@, i as int,
                pre.classes@, pre.vtables@);
            lemma_contiguous_disjoint(self.old_objs@, pre.old.base as int,
                pre.old.top as int, pre.classes@);
            lemma_index_unique(self.old_objs@, pre.classes@, obj_addr.0 as int);
        }
        self.card_table.mark_dirty(Address(slot_addr));
        proof {
            self.lemma_store_wf(pre, obj_addr, slot as int, value);
        }
        true
    }

    /// The large-space half of [`Heap::store_ref`]; large objects lie outside
    /// the card-covered old region.
    #[verifier::rlimit(100)]
    fn store_large(&mut self, i: usize, obj_addr: Address, slot: usize, value: Address)
        -> (r: bool)
        requires
            old(self).wf(),
            old(self).valid_ref(value),
            i < old(self).large_objs@.len(),
            old(self).large_objs@[i as int].address == obj_addr,
            !objs_has_start(old(self).young_objs@, obj_addr.0 as int),
            !objs_has_start(old(self).old_objs@, obj_addr.0 as int),
        ensures
            final(self).wf(),
            r == can_store(*old(self), obj_addr, slot as int),
            !r ==> *final(self) == *old(self),
            r ==> store_outcome(*old(self), *final(self), obj_addr, slot as int, value),
    {
        let ghost pre = *self;
        proof {
            lemma_index_unique(pre.large_objs@, pre.classes@, obj_addr.0 as int);
        }
        if slot >= self.large_objs[i].num_ref_slots() {
            return false;
        }
        let o = vec_index_mut(&mut self.large_objs, i);
        o.set_ref_slot(slot, value);
        proof {
            lemma_list_update(pre.large_objs@, self.large_objs@, i as int,
                pre.classes@, pre.vtables@);
            lemma_index_unique(self.large_objs@, pre.classes@, obj_addr.0 as int);
            self.lemma_store_wf(pre, obj_addr, slot as int, value);
        }
        true
    }

    /// After a slot update in exactly one list, the heap invariant holds
    /// again and the store outcome is as promised.
    proof fn lemma_store_wf(self, pre: Heap, addr: Address, j: int, v: Address)
        requires
            pre.wf(),
            pre.valid_ref(v),
            pre.has_obj_at(addr.0 as int),
            self.classes@ == pre.classes@,
            self.vtables@ == pre.vtables@,
            self.young == pre.young,
            self.old == pre.old,
            self.large == pre.large,
            self.perm == pre.perm,
            self.crossing == pre.crossing,
            self.card_table.base == pre.card_table.base,
            self.card_table.spec_len() == pre.card_table.spec_len(),
            self.card_table.wf(),
            all_wf(self.young_objs@, self.classes@),
            all_wf(self.old_objs@, self.classes@),
            all_wf(self.large_objs@, self.classes@),
            contiguous(self.young_objs@, self.young.base as int, self.young.top as int,
                self.classes@),
            contiguous(self.old_objs@, self.old.base as int, self.old.top as int, self.classes@),
            objs_within(self.young_objs@, self.young.base as int, self.young.top as int,
                self.classes@),
            objs_within(self.old_objs@, self.old.base as int, self.old.top as int,
                self.classes@),
            objs_within(self.large_objs@, self.large.base as int, self.large.top as int,
                self.classes@),
            objs_disjoint(self.large_objs@, self.classes@),
            clean_headers(self.young_objs@, self.vtables@),
            clean_headers(self.old_objs@, self.vtables@),
            clean_headers(self.large_objs@, self.vtables@),
            forall|a: int| objs_has_start(self.young_objs@, a)
                <==> objs_has_start(pre.young_objs@, a),
            forall|a: int| objs_has_start(self.old_objs@, a)
                <==> objs_has_start(pre.old_objs@, a),
            forall|a: int| objs_has_start(self.large_objs@, a)
                <==> objs_has_start(pre.large_objs@, a),
            forall|k: int, l: int| 0 <= k < self.young_objs@.len()
                && 0 <= l < self.young_objs@[k].spec_num_ref_slots()
                ==> (#[trigger] self.young_objs@[k].spec_ref_slot(l)) == v
                    || pre.slot_of(pre.young_objs@, k, l, self.young_objs@[k].spec_ref_slot(l)),
            forall|k: int, l: int| 0 <= k < self.old_objs@.len()
                && 0 <= l < self.old_objs@[k].spec_num_ref_slots()
                ==> (#[trigger] self.old_objs@[k].spec_ref_slot(l)) == v
                    || pre.slot_of(pre.old_objs@, k, l, self.old_objs@[k].spec_ref_slot(l)),
            forall|k: int, l: int| 0 <= k < self.large_objs@.len()
                && 0 <= l < self.large_objs@[k].spec_num_ref_slots()
                ==> (#[trigger] self.large_objs@[k].spec_ref_slot(l)) == v
                    || pre.slot_of(pre.large_objs@, k, l, self.large_objs@[k].spec_ref_slot(l)),
        ensures
            self.wf(),
    {
        assert forall|a: int| pre.has_obj_at(a) implies self.has_obj_at(a) by {}
        assert forall|vv: Address| pre.valid_ref(vv) implies self.valid_ref(vv) by {}
        assert(self.refs_valid()) by {
            assert forall|k: int, l: int| 0 <= k < self.young_objs@.len()
                && 0 <= l < (#[trigger] self.young_objs@[k]).spec_num_ref_slots()
                implies self.valid_ref(#[trigger] self.young_objs@[k].spec_ref_slot(l)) by {
                let vv = self.young_objs@[k].spec_ref_slot(l);
                if vv != v {
                    assert(pre.valid_ref(vv));
                }
            }
            assert forall|k: int, l: int| 0 <= k < self.old_objs@.len()
                && 0 <= l < (#[trigger] self.old_objs@[k]).spec_num_ref_slots()
                implies self.valid_ref(#[trigger] self.old_objs@[k].spec_ref_slot(l)) by {
                let vv = self.old_objs@[k].spec_ref_slot(l);
                if vv != v {
                    assert(pre.valid_ref(vv));
                }
            }
            assert forall|k: int, l: int| 0 <= k < self.large_objs@.len()
                && 0 <= l < (#[trigger] self.large_objs@[k]).spec_num_ref_slots()
                implies self.valid_ref(#[trigger] self.large_objs@[k].spec_ref_slot(l)) by {
                let vv = self.large_objs@[k].spec_ref_slot(l);
                if vv != v {
                    assert(pre.valid_ref(vv));
                }
            }
        }
    }

    /// Slot `l` of object `k` of `objs` held this value already before the
    /// store (so its validity carries over from the old heap).
    pub open spec fn slot_of(self, objs: Seq<Obj>, k: int, l: int, vv: Address) -> bool {
        &&& 0 <= k < objs.len()
        &&& 0 <= l < objs[k].spec_num_ref_slots()
        &&& objs[k].spec_ref_slot(l) == vv
    }

    /// Reads reference slot `slot` of the object starting at `obj_addr`.
    pub fn read_ref(&self, obj_addr: Address, slot: usize) -> (r: Option<Address>)
        requires
            self.wf(),
        ensures
            r is Some <==> can_store(*self, obj_addr, slot as int),
            r is Some ==> r->Some_0
                == self.spec_obj_at(obj_addr.0 as int).spec_ref_slot(slot as int),
    {
        proof {
            lemma_contiguous_disjoint(self.young_objs@, self.young.base as int,
                self.young.top as int, self.classes@);
            lemma_contiguous_disjoint(self.old_objs@, self.old.base as int,
                self.old.top as int, self.classes@);
        }
        if let Some(i) = find_index(&self.young_objs, obj_addr) {
            proof {
                lemma_index_unique(self.young_objs@, self.classes@, obj_addr.0 as int);
            }
            if slot < self.young_objs[i].num_ref_slots() {
                Some(self.young_objs[i].get_ref_slot(slot))
            } else {
                None
            }
        } else if let Some(i) = find_index(&self.old_objs, obj_addr) {
            proof {
                lemma_index_unique(self.old_objs@, self.classes@, obj_addr.0 as int);
            }
            if slot < self.old_objs[i].num_ref_slots() {
                Some(self.old_objs[i].get_ref_slot(slot))
            } else {
                None
            }
        } else if let Some(i) = find_index(&self.large_objs, obj_addr) {
            proof {
                lemma_index_unique(self.large_objs@, self.classes@, obj_addr.0 as int);
            }
            if slot < self.large_objs[i].num_ref_slots() {
                Some(self.large_objs[i].get_ref_slot(slot))
            } else {
                None
            }
        } else {
            None
        }
    }
}

/// Whether a store to reference slot `slot` of the object starting at
/// `addr` is possible: the object exists and has that slot.
pub open spec fn can_store(pre: Heap, addr: Address, slot: int) -> bool {
    &&& pre.has_obj_at(addr.0 as int)
    &&& 0 <= slot < pre.spec_obj_at(addr.0 as int).spec_num_ref_slots()
}

/// What a successful reference store did: the one slot holds the new value,
/// everything else is unchanged — and, for a store into the old generation,
/// the card covering the written slot is dirty (the write barrier).
pub open spec fn store_outcome(pre: Heap, post: Heap, addr: Address, j: int, v: Address)
    -> bool {
    &&& post.classes@ == pre.classes@
    &&& post.vtables@ == pre.vtables@
    &&& post.young == pre.young
    &&& post.old == pre.old
    &&& post.large == pre.large
    &&& post.perm == pre.perm
    &&& post.crossing == pre.crossing
    &&& post.card_table.base == pre.card_table.base
    &&& post.card_table.spec_len() == pre.card_table.spec_len()
    &&& forall|a: int| pre.has_obj_at(a) <==> post.has_obj_at(a)
    &&& post.young_objs@.len() == pre.young_objs@.len()
    &&& post.old_objs@.len() == pre.old_objs@.len()
    &&& post.large_objs@.len() == pre.large_objs@.len()
    &&& forall|k: int| 0 <= k < pre.young_objs@.len()
        && (#[trigger] pre.young_objs@[k]).address != addr
        ==> post.young_objs@[k] == pre.young_objs@[k]
    &&& forall|k: int| 0 <= k < pre.old_objs@.len()
        && (#[trigger] pre.old_objs@[k]).address != addr
        ==> post.old_objs@[k] == pre.old_objs@[k]
    &&& forall|k: int| 0 <= k < pre.large_objs@.len()
        && (#[trigger] pre.large_objs@[k]).address != addr
        ==> post.large_objs@[k] == pre.large_objs@[k]
    &&& {
        let o_pre = pre.spec_obj_at(addr.0 as int);
        let o_post = post.spec_obj_at(addr.0 as int);
        &&& o_post.spec_ref_slot(j) == v
        &&& o_post.spec_num_ref_slots() == o_pre.spec_num_ref_slots()
        &&& forall|l: int| 0 <= l < o_pre.spec_num_ref_slots() && l != j
            ==> o_post.spec_ref_slot(l) == o_pre.spec_ref_slot(l)
        &&& o_post.address == o_pre.address
        &&& o_post.cls == o_pre.cls
        &&& o_post.header == o_pre.header
    }
    &&& (objs_has_start(pre.old_objs@, addr.0 as int) ==> post.card_table.dirty@[
        spec_card_index(pre.spec_obj_at(addr.0 as int).spec_ref_slot_addr(pre.classes@, j),
            pre.card_table.base as int)])
    &&& (!objs_has_start(pre.old_objs@, addr.0 as int) ==> post.card_table == pre.card_table)
}

/// The object lists of `post` equal those of `pre` except that the header
/// class word of the object starting at `addr` may have been rewritten; no
/// other part of any object, and nothing else in the heap, changed.
pub open spec fn class_word_repair_frame(pre: Heap, post: Heap, addr: Address) -> bool {
    &&& post.classes@ == pre.classes@
    &&& post.vtables@ == pre.vtables@
    &&& post.young == pre.young
    &&& post.old == pre.old
    &&& post.large == pre.large
    &&& post.perm == pre.perm
    &&& post.card_table == pre.card_table
    &&& post.crossing == pre.crossing
    &&& post.young_objs@.len() == pre.young_objs@.len()
    &&& post.old_objs@.len() == pre.old_objs@.len()
    &&& post.large_objs@.len() == pre.large_objs@.len()
    &&& forall|i: int| 0 <= i < pre.young_objs@.len() ==> (#[trigger] post.young_objs@[i])
        == (Obj {
            header: Header {
                vtable: post.young_objs@[i].header.vtable,
                ..pre.young_objs@[i].header
            },
            ..pre.young_objs@[i]
        }) && (pre.young_objs@[i].address != addr
            ==> post.young_objs@[i] == pre.young_objs@[i])
    &&& forall|i: int| 0 <= i < pre.old_objs@.len() ==> (#[trigger] post.old_objs@[i])
        == (Obj {
            header: Header {
                vtable: post.old_objs@[i].header.vtable,
                ..pre.old_objs@[i].header
            },
            ..pre.old_objs@[i]
        }) && (pre.old_objs@[i].address != addr
            ==> post.old_objs@[i] == pre.old_objs@[i])
    &&& forall|i: int| 0 <= i < pre.large_objs@.len() ==> (#[trigger] post.large_objs@[i])
        == (Obj {
            header: Header {
                vtable: post.large_objs@[i].header.vtable,
                ..pre.large_objs@[i].header
            },
            ..pre.large_objs@[i]
        }) && (pre.large_objs@[i].address != addr
            ==> post.large_objs@[i] == pre.large_objs@[i])
}

/// What every allocation leaves untouched.
pub open spec fn alloc_frame(pre: Heap, post: Heap) -> bool {
    &&& post.classes@ == pre.classes@
    &&& post.vtables@ == pre.vtables@
    &&& post.old_objs@ == pre.old_objs@
    &&& post.old == pre.old
    &&& post.perm == pre.perm
    &&& post.card_table == pre.card_table
    &&& post.crossing == pre.crossing
}

/// Free bytes of the space an object of `size` bytes is routed to.
pub open spec fn spec_routed_free(pre: Heap, size: int) -> int {
    if size >= LARGE_OBJECT_THRESHOLD {
        pre.large.spec_free()
    } else {
        pre.young.spec_free()
    }
}

/// The object a successful allocation appended.
pub open spec fn spec_last_alloc(pre: Heap, post: Heap, size: int) -> Obj {
    if size >= LARGE_OBJECT_THRESHOLD {
        post.large_objs@.last()
    } else {
        post.young_objs@.last()
    }
}

/// What a successful allocation of `size` bytes at `a` did: the new object
/// sits at the routed space's old bump pointer, null-initialized, cleanly
/// headed, and everything else in that space is as it was.
pub open spec fn alloc_outcome(pre: Heap, post: Heap, a: Address, cls: ClassDefId, size: int)
    -> bool {
    let o = spec_last_alloc(pre, post, size);
    &&& o.address == a
    &&& o.cls == cls
    &&& o.header == (Header {
        vtable: ClassWord::Pointer(pre.vtables@[cls.0 as int]),
        fwdptr: Address(0),
        marked: false,
    })
    &&& body_slots_null(o.body)
    &&& o.spec_size(post.classes@) == size
    &&& if size >= LARGE_OBJECT_THRESHOLD {
        &&& a.0 == pre.large.top
        &&& post.large_objs@ == pre.large_objs@.push(o)
        &&& post.young_objs@ == pre.young_objs@
        &&& post.young == pre.young
    } else {
        &&& a.0 == pre.young.top
        &&& post.young_objs@ == pre.young_objs@.push(o)
        &&& post.large_objs@ == pre.large_objs@
        &&& post.large == pre.large
    }
}

impl Heap {
    /// Reads the class word of the object starting at `a`, if one does.
    fn class_word_at(&self, a: Address) -> (r: Option<ClassWord>)
        ensures
            r is Some ==> self.has_obj_at(a.0 as int),
    {
        if let Some(i) = find_index(&self.young_objs, a) {
            Some(self.young_objs[i].header.vtable)
        } else if let Some(i) = find_index(&self.old_objs, a) {
            Some(self.old_objs[i].header.vtable)
        } else if let Some(i) = find_index(&self.large_objs, a) {
            Some(self.large_objs[i].header.vtable)
        } else {
            None
        }
    }

    /// Follows a forwarding chain — object to object — until a plain or
    /// failed-forward header yields a class pointer; bounded by the number
    /// of live objects, which covers every cycle-free chain.
    fn chase_class_pointer(&self, first: Address) -> (r: Option<Address>)
    {
        let mut cur = first;
        let mut fuel = self.young_objs.len();
        let more = self.old_objs.len();
        if fuel <= usize::MAX - more {
            fuel = fuel + more;
        }
        let more2 = self.large_objs.len();
        if fuel <= usize::MAX - more2 {
            fuel = fuel + more2;
        }
        while fuel > 0
            decreases fuel,
        {
            match self.class_word_at(cur) {
                Some(ClassWord::Pointer(p)) => {
                    return Some(p);
                },
                Some(ClassWord::ForwardFailed(p)) => {
                    return Some(p);
                },
                Some(ClassWord::ForwardTo(next)) => {
                    cur = next;
                },
                None => {
                    return None;
                },
            }
            fuel = fuel - 1;
        }
        None
    }

    /// Post-compaction fix-up: resolves the forwarding chain starting at
    /// `addr` — object to object — down to the final plain class pointer and
    /// rewrites the slot, so that no forwarding tag stays visible to the
    /// mutator. A failed forward is rewritten back to its retained class
    /// pointer; an already-plain header is left alone, so the repair is
    /// idempotent. On a dangling or cyclic chain (states the collector never
    /// builds) the header is left as it was and `false` comes back. Nothing
    /// else in the heap changes either way.
    #[verifier::rlimit(100)]
    pub fn repair_class_pointer(&mut self, addr: Address) -> (r: bool)
        ensures
            class_word_repair_frame(*old(self), *final(self), addr),
            !r ==> final(self).young_objs@ == old(self).young_objs@
                && final(self).old_objs@ == old(self).old_objs@
                && final(self).large_objs@ == old(self).large_objs@,
            r ==> (exists|i: int| 0 <= i < final(self).young_objs@.len()
                    && (#[trigger] final(self).young_objs@[i]).address == addr
                    && final(self).young_objs@[i].header.vtable is Pointer)
                || (exists|i: int| 0 <= i < final(self).old_objs@.len()
                    && (#[trigger] final(self).old_objs@[i]).address == addr
                    && final(self).old_objs@[i].header.vtable is Pointer)
                || (exists|i: int| 0 <= i < final(self).large_objs@.len()
                    && (#[trigger] final(self).large_objs@[i]).address == addr
                    && final(self).large_objs@[i].header.vtable is Pointer),
    {
        let ghost pre = *self;
        if let Some(i) = find_index(&self.young_objs, addr) {
            let target = match self.young_objs[i].header.vtable {
                ClassWord::Pointer(_) => None,
                ClassWord::ForwardFailed(p) => Some(p),
                ClassWord::ForwardTo(first) => match self.chase_class_pointer(first) {
                    Some(p) => Some(p),
                    None => {
                        return false;
                    },
                },
            };
            if let Some(p) = target {
                let o = vec_index_mut(&mut self.young_objs, i);
                o.header_mut().set_vtblptr(p);
            }
            proof {
                lemma_class_word_only(pre, *self, addr, i as int, 0);
                assert(self.young_objs@[i as int].address == addr);
                assert(self.young_objs@[i as int].header.vtable is Pointer);
            }
            true
        } else if let Some(i) = find_index(&self.old_objs, addr) {
            let target = match self.old_objs[i].header.vtable {
                ClassWord::Pointer(_) => None,
                ClassWord::ForwardFailed(p) => Some(p),
                ClassWord::ForwardTo(first) => match self.chase_class_pointer(first) {
                    Some(p) => Some(p),
                    None => {
                        return false;
                    },
                },
            };
            if let Some(p) = target {
                let o = vec_index_mut(&mut self.old_objs, i);
                o.header_mut().set_vtblptr(p);
            }
            proof {
                lemma_class_word_only(pre, *self, addr, i as int, 1);
                assert(self.old_objs@[i as int].address == addr);
                assert(self.old_objs@[i as int].header.vtable is Pointer);
            }
            true
        } else if let Some(i) = find_index(&self.large_objs, addr) {
            let target = match self.large_objs[i].header.vtable {
                ClassWord::Pointer(_) => None,
                ClassWord::ForwardFailed(p) => Some(p),
                ClassWord::ForwardTo(first) => match self.chase_class_pointer(first) {
                    Some(p) => Some(p),
                    None => {
                        return false;
                    },
                },
            };
            if let Some(p) = target {
                let o = vec_index_mut(&mut self.large_objs, i);
                o.header_mut().set_vtblptr(p);
            }
            proof {
                lemma_class_word_only(pre, *self, addr, i as int, 2);
                assert(self.large_objs@[i as int].address == addr);
                assert(self.large_objs@[i as int].header.vtable is Pointer);
            }
            true
        } else {
            false
        }
    }
}

/// After rewriting (at most) the class word of element `i` of the selected
/// list, the repair frame holds.
proof fn lemma_class_word_only(pre: Heap, post: Heap, addr: Address, i: int, which: int)
    requires
        which == 0 || which == 1 || which == 2,
        which == 0 ==> {
            &&& 0 <= i < pre.young_objs@.len()
            &&& post.young_objs@.len() == pre.young_objs@.len()
            &&& forall|k: int| 0 <= k < pre.young_objs@.len() && k != i
                ==> #[trigger] post.young_objs@[k] == pre.young_objs@[k]
            &&& post.young_objs@[i] == (Obj {
                header: Header {
                    vtable: post.young_objs@[i].header.vtable,
                    ..pre.young_objs@[i].header
                },
                ..pre.young_objs@[i]
            })
        },
        which == 1 ==> {
            &&& 0 <= i < pre.old_objs@.len()
            &&& post.old_objs@.len() == pre.old_objs@.len()
            &&& forall|k: int| 0 <= k < pre.old_objs@.len() && k != i
                ==> #[trigger] post.old_objs@[k] == pre.old_objs@[k]
            &&& post.old_objs@[i] == (Obj {
                header: Header {
                    vtable: post.old_objs@[i].header.vtable,
                    ..pre.old_objs@[i].header
                },
                ..pre.old_objs@[i]
            })
        },
        which == 2 ==> {
            &&& 0 <= i < pre.large_objs@.len()
            &&& post.large_objs@.len() == pre.large_objs@.len()
            &&& forall|k: int| 0 <= k < pre.large_objs@.len() && k != i
                ==> #[trigger] post.large_objs@[k] == pre.large_objs@[k]
            &&& post.large_objs@[i] == (Obj {
                header: Header {
                    vtable: post.large_objs@[i].header.vtable,
                    ..pre.large_objs@[i].header
                },
                ..pre.large_objs@[i]
            })
        },
        which == 0 ==> post.old_objs@ == pre.old_objs@
            && post.large_objs@ == pre.large_objs@
            && pre.young_objs@[i].address == addr,
        which == 1 ==> post.young_objs@ == pre.young_objs@
            && post.large_objs@ == pre.large_objs@
            && pre.old_objs@[i].address == addr,
        which == 2 ==> post.young_objs@ == pre.young_objs@
            && post.old_objs@ == pre.old_objs@
            && pre.large_objs@[i].address == addr,
        post.classes@ == pre.classes@,
        post.vtables@ == pre.vtables@,
        post.young == pre.young,
        post.old == pre.old,
        post.large == pre.large,
        post.perm == pre.perm,
        post.card_table == pre.card_table,
        post.crossing == pre.crossing,
    ensures
        class_word_repair_frame(pre, post, addr),
{
    if which == 0 {
        assert forall|k: int| 0 <= k < pre.young_objs@.len()
            implies (#[trigger] post.young_objs@[k]) == (Obj {
                header: Header {
                    vtable: post.young_objs@[k].header.vtable,
                    ..pre.young_objs@[k].header
                },
                ..pre.young_objs@[k]
            }) by {
            if k != i {
                assert(post.young_objs@[k] == pre.young_objs@[k]);
            }
        }
        assert forall|k: int| 0 <= k < pre.old_objs@.len()
            implies (#[trigger] post.old_objs@[k]) == (Obj {
                header: Header {
                    vtable: post.old_objs@[k].header.vtable,
                    ..pre.old_objs@[k].header
                },
                ..pre.old_objs@[k]
            }) by {
            assert(post.old_objs@[k] == pre.old_objs@[k]);
        }
        assert forall|k: int| 0 <= k < pre.large_objs@.len()
            implies (#[trigger] post.large_objs@[k]) == (Obj {
                header: Header {
                    vtable: post.large_objs@[k].header.vtable,
                    ..pre.large_objs@[k].header
                },
                ..pre.large_objs@[k]
            }) by {
            assert(post.large_objs@[k] == pre.large_objs@[k]);
        }
    } else if which == 1 {
        assert forall|k: int| 0 <= k < pre.old_objs@.len()
            implies (#[trigger] post.old_objs@[k]) == (Obj {
                header: Header {
                    vtable: post.old_objs@[k].header.vtable,
                    ..pre.old_objs@[k].header
                },
                ..pre.old_objs@[k]
            }) by {
            if k != i {
                assert(post.old_objs@[k] == pre.old_objs@[k]);
            }
        }
        assert forall|k: int| 0 <= k < pre.young_objs@.len()
            implies (#[trigger] post.young_objs@[k]) == (Obj {
                header: Header {
                    vtable: post.young_objs@[k].header.vtable,
                    ..pre.young_objs@[k].header
                },
                ..pre.young_objs@[k]
            }) by {
            assert(post.young_objs@[k] == pre.young_objs@[k]);
        }
        assert forall|k: int| 0 <= k < pre.large_objs@.len()
            implies (#[trigger] post.large_objs@[k]) == (Obj {
                header: Header {
                    vtable: post.large_objs@[k].header.vtable,
                    ..pre.large_objs@[k].header
                },
                ..pre.large_objs@[k]
            }) by {
            assert(post.large_objs@[k] == pre.large_objs@[k]);
        }
    } else {
        assert forall|k: int| 0 <= k < pre.large_objs@.len()
            implies (#[trigger] post.large_objs@[k]) == (Obj {
                header: Header {
                    vtable: post.large_objs@[k].header.vtable,
                    ..pre.large_objs@[k].header
                },
                ..pre.large_objs@[k]
            }) by {
            if k != i {
                assert(post.large_objs@[k] == pre.large_objs@[k]);
            }
        }
        assert forall|k: int| 0 <= k < pre.young_objs@.len()
            implies (#[trigger] post.young_objs@[k]) == (Obj {
                header: Header {
                    vtable: post.young_objs@[k].header.vtable,
                    ..pre.young_objs@[k].header
                },
                ..pre.young_objs@[k]
            }) by {
            assert(post.young_objs@[k] == pre.young_objs@[k]);
        }
        assert forall|k: int| 0 <= k < pre.old_objs@.len()
            implies (#[trigger] post.old_objs@[k]) == (Obj {
                header: Header {
                    vtable: post.old_objs@[k].header.vtable,
                    ..pre.old_objs@[k].header
                },
                ..pre.old_objs@[k]
            }) by {
            assert(post.old_objs@[k] == pre.old_objs@[k]);
        }
    }
}

/// Allocates a fixed-size instance, as the runtime's constructor path does;
/// the returned handle is null when the routed space is full.
pub fn allocate(heap: &mut Heap, clsid: ClassDefId) -> (r: Ref<Obj>)
    requires
        old(heap).wf(),
        clsid.0 < old(heap).classes@.len(),
        old(heap).classes@[clsid.0 as int].size is Fixed,
    ensures
        final(heap).wf(),
        alloc_frame(*old(heap), *final(heap)),
        r.ptr.0 != 0 <==> cd_fixed_size(old(heap).classes@[clsid.0 as int]) <= spec_routed_free(
            *old(heap), cd_fixed_size(old(heap).classes@[clsid.0 as int])),
        r.ptr.0 != 0 ==> alloc_outcome(*old(heap), *final(heap), r.ptr, clsid,
            cd_fixed_size(old(heap).classes@[clsid.0 as int])),
        r.ptr.0 == 0 ==> *final(heap) == *old(heap),
{
    match heap.alloc_object(clsid) {
        Some(a) => Ref::from_address(a),
        None => Ref::null(),
    }
}

/// The fixed instance size of a class (meaningful for `Fixed` classes only).
pub open spec fn cd_fixed_size(cd: ClassData) -> int {
    match cd.size {
        ClassSize::Fixed(s) => s as int,
        _ => 0,
    }
}

/// The element width of a primitive-array class (meaningful for `Array`
/// classes only).
pub open spec fn cd_element_size(cd: ClassData) -> int {
    match cd.size {
        ClassSize::Array(e) => e as int,
        _ => 0,
    }
}

/// A vector of `n` null references.
fn null_refs(n: usize) -> (v: Vec<Address>)
    ensures
        v@.len() == n,
        forall|j: int| 0 <= j < n ==> (#[trigger] v@[j]).0 == 0,
{
    let mut v: Vec<Address> = Vec::new();
    let mut i: usize = 0;
    while i < n
        invariant
            i <= n,
            v@.len() == i,
            forall|j: int| 0 <= j < i ==> (#[trigger] v@[j]).0 == 0,
        decreases n - i,
    {
        v.push(Address(0));
        i = i + 1;
    }
    v
}

/// The payload shape an allocation request must have for its class.
pub open spec fn body_shape_ok(body: ObjBody, cd: ClassData) -> bool {
    match body {
        ObjBody::Fixed { fields } => cd.size is Fixed
            && fields@.len() == cd.ref_fields@.len(),
        ObjBody::RefArray { .. } => cd.size is ObjArray || cd.size is FreeArray,
        ObjBody::PrimArray { .. } => cd.size is Array,
        ObjBody::Str { .. } => cd.size is Str,
    }
}

/// All reference slots of the payload are null.
pub open spec fn body_slots_null(body: ObjBody) -> bool {
    match body {
        ObjBody::Fixed { fields } => forall|j: int| 0 <= j < fields@.len()
            ==> (#[trigger] fields@[j]).0 == 0,
        ObjBody::RefArray { elements } => forall|j: int| 0 <= j < elements@.len()
            ==> (#[trigger] elements@[j]).0 == 0,
        _ => true,
    }
}

/// A freshly allocated object: clean header naming the class's vtable, null
/// relocation address, unmarked.
pub open spec fn fresh_obj(a: Address, cls: ClassDefId, body: ObjBody, vtbl: Address) -> Obj {
    Obj {
        address: a,
        header: Header {
            vtable: ClassWord::Pointer(vtbl),
            fwdptr: Address(0),
            marked: false,
        },
        cls,
        body,
    }
}

/// Every object has at least a header's worth of bytes.
pub proof fn lemma_obj_size_pos(o: Obj, classes: Seq<ClassData>)
    requires
        o.wf(classes),
    ensures
        o.spec_size(classes) >= 16,
{
    match o.body {
        ObjBody::Fixed { .. } => {},
        ObjBody::RefArray { elements } => {
            mem::lemma_align_up(24 + elements@.len() * 8 as int, 8);
        },
        ObjBody::PrimArray { length } => {
            match classes[o.cls.0 as int].size {
                ClassSize::Array(e) => {
                    mem::lemma_align_up(24 + length as int * e as int, 8);
                },
                _ => {},
            }
        },
        ObjBody::Str { length } => {
            mem::lemma_align_up(24 + length as int, 8);
        },
    }
}

/// In a bump layout every earlier object ends at or before a later one starts;
/// in particular addresses are strictly increasing.
pub proof fn lemma_contiguous_ordered(
    objs: Seq<Obj>,
    base: int,
    top: int,
    classes: Seq<ClassData>,
    i: int,
    j: int,
)
    requires
        contiguous(objs, base, top, classes),
        all_wf(objs, classes),
        0 <= i < j < objs.len(),
    ensures
        objs[i].address.0 + objs[i].spec_size(classes) <= objs[j].address.0,
        objs[i].address.0 < objs[j].address.0,
    decreases j - i,
{
    lemma_obj_size_pos(objs[i], classes);
    if j == i + 1 {
    } else {
        lemma_contiguous_ordered(objs, base, top, classes, i + 1, j);
    }
}

/// Appending an object right at the bump pointer extends the layout.
pub proof fn lemma_layout_push(
    prev: Seq<Obj>,
    o: Obj,
    base: int,
    top: int,
    classes: Seq<ClassData>,
)
    requires
        contiguous(prev, base, top, classes),
        objs_within(prev, base, top, classes),
        all_wf(prev, classes),
        o.wf(classes),
        o.address.0 == top,
    ensures
        contiguous(prev.push(o), base, top + o.spec_size(classes), classes),
        objs_within(prev.push(o), base, top + o.spec_size(classes), classes),
        all_wf(prev.push(o), classes),
{
    let objs = prev.push(o);
    let newtop = top + o.spec_size(classes);
    lemma_obj_size_pos(o, classes);
    assert forall|i: int| 0 <= i < objs.len() - 1
        implies (#[trigger] objs[i + 1]).address.0 == objs[i].address.0 + objs[i].spec_size(classes)
    by {
        if i + 1 < prev.len() {
            assert(objs[i] == prev[i]);
            assert(objs[i + 1] == prev[i + 1]);
        } else {
            assert(objs[i] == prev[i]);
            assert(objs[i + 1] == o);
        }
    }
    assert forall|i: int| 0 <= i < objs.len()
        implies base <= (#[trigger] objs[i]).address.0
            && objs[i].address.0 + objs[i].spec_size(classes) <= newtop
    by {
        if i < prev.len() {
            assert(objs[i] == prev[i]);
        } else {
            assert(objs[i] == o);
        }
    }
    assert forall|i: int| 0 <= i < objs.len() implies (#[trigger] objs[i]).wf(classes) by {
        if i < prev.len() {
            assert(objs[i] == prev[i]);
        } else {
            assert(objs[i] == o);
        }
    }
}

/// Appending an object at or above the previous top keeps a large-space
/// layout ordered and in bounds.
pub proof fn lemma_large_push(
    prev: Seq<Obj>,
    o: Obj,
    lo: int,
    top: int,
    classes: Seq<ClassData>,
)
    requires
        objs_within(prev, lo, top, classes),
        objs_disjoint(prev, classes),
        all_wf(prev, classes),
        o.wf(classes),
        lo <= o.address.0,
        top <= o.address.0,
    ensures
        objs_within(prev.push(o), lo, o.address.0 + o.spec_size(classes), classes),
        objs_disjoint(prev.push(o), classes),
        all_wf(prev.push(o), classes),
{
    let objs = prev.push(o);
    let newtop = o.address.0 + o.spec_size(classes);
    assert forall|i: int| 0 <= i < objs.len()
        implies lo <= (#[trigger] objs[i]).address.0
            && objs[i].address.0 + objs[i].spec_size(classes) <= newtop
            && objs[i].wf(classes)
    by {
        if i < prev.len() {
            assert(objs[i] == prev[i]);
        } else {
            assert(objs[i] == o);
        }
    }
    assert forall|i: int| 0 <= i < objs.len() - 1
        implies (#[trigger] objs[i]).address.0 + objs[i].spec_size(classes)
            <= objs[i + 1].address.0
    by {
        if i + 1 < prev.len() {
            assert(objs[i] == prev[i]);
            assert(objs[i + 1] == prev[i + 1]);
        } else {
            assert(objs[i] == prev[i]);
            assert(objs[i + 1] == o);
        }
    }
}

/// Clean headers stay clean when a cleanly-built object is appended.
pub proof fn lemma_clean_push(prev: Seq<Obj>, o: Obj, vtables: Seq<Address>)
    requires
        clean_headers(prev, vtables),
        o.header.vtable == ClassWord::Pointer(vtables[o.cls.0 as int]),
        !o.header.marked,
        o.header.fwdptr.0 % 8 == 0,
    ensures
        clean_headers(prev.push(o), vtables),
{
    let objs = prev.push(o);
    assert forall|i: int| 0 <= i < objs.len() implies {
        &&& (#[trigger] objs[i]).header.vtable == ClassWord::Pointer(vtables[objs[i].cls.0 as int])
        &&& !objs[i].header.marked
        &&& objs[i].header.fwdptr.0 % 8 == 0
    } by {
        if i < prev.len() {
            assert(objs[i] == prev[i]);
        } else {
            assert(objs[i] == o);
        }
    }
}

/// A start that exists keeps existing when an object is appended.
pub proof fn lemma_has_start_push(objs: Seq<Obj>, o: Obj, a: int)
    requires
        objs_has_start(objs, a),
    ensures
        objs_has_start(objs.push(o), a),
{
    let i = choose|i: int| 0 <= i < objs.len() && (#[trigger] objs[i]).address.0 == a;
    assert(objs.push(o)[i] == objs[i]);
}

/// In an address-ordered disjoint layout, addresses are strictly increasing.
pub proof fn lemma_disjoint_ordered(
    objs: Seq<Obj>,
    classes: Seq<ClassData>,
    i: int,
    j: int,
)
    requires
        objs_disjoint(objs, classes),
        all_wf(objs, classes),
        0 <= i < j < objs.len(),
    ensures
        objs[i].address.0 + objs[i].spec_size(classes) <= objs[j].address.0,
        objs[i].address.0 < objs[j].address.0,
    decreases j - i,
{
    lemma_obj_size_pos(objs[i], classes);
    if j == i + 1 {
    } else {
        lemma_disjoint_ordered(objs, classes, i + 1, j);
    }
}

/// A bump layout is in particular address-ordered and disjoint.
pub proof fn lemma_contiguous_disjoint(
    objs: Seq<Obj>,
    base: int,
    top: int,
    classes: Seq<ClassData>,
)
    requires
        contiguous(objs, base, top, classes),
    ensures
        objs_disjoint(objs, classes),
{
}

/// In an address-ordered disjoint layout, at most one object starts at any
/// address, so the chosen index is the only one.
pub proof fn lemma_index_unique(objs: Seq<Obj>, classes: Seq<ClassData>, a: int)
    requires
        objs_disjoint(objs, classes),
        all_wf(objs, classes),
        objs_has_start(objs, a),
    ensures
        0 <= objs_index_of(objs, a) < objs.len(),
        objs[objs_index_of(objs, a)].address.0 == a,
        forall|k: int| 0 <= k < objs.len() && (#[trigger] objs[k]).address.0 == a
            ==> k == objs_index_of(objs, a),
{
    let idx = objs_index_of(objs, a);
    assert forall|k: int| 0 <= k < objs.len() && (#[trigger] objs[k]).address.0 == a
        implies k == idx by {
        if k < idx {
            lemma_disjoint_ordered(objs, classes, k, idx);
        } else if k > idx {
            lemma_disjoint_ordered(objs, classes, idx, k);
        }
    }
}

/// Updating one object in place — same address, class, header, slot count,
/// body kind and size — leaves every layout predicate intact.
pub proof fn lemma_list_update(
    prev: Seq<Obj>,
    cur: Seq<Obj>,
    i: int,
    classes: Seq<ClassData>,
    vtables: Seq<Address>,
)
    requires
        0 <= i < prev.len(),
        cur.len() == prev.len(),
        forall|k: int| 0 <= k < prev.len() && k != i ==> #[trigger] cur[k] == prev[k],
        cur[i].address == prev[i].address,
        cur[i].cls == prev[i].cls,
        cur[i].header == prev[i].header,
        cur[i].spec_num_ref_slots() == prev[i].spec_num_ref_slots(),
        (cur[i].body is Fixed) == (prev[i].body is Fixed),
        (cur[i].body is RefArray) == (prev[i].body is RefArray),
        (cur[i].body is PrimArray) == (prev[i].body is PrimArray),
        (cur[i].body is Str) == (prev[i].body is Str),
        forall|c: Seq<ClassData>| #[trigger] cur[i].spec_size(c) == prev[i].spec_size(c),
        all_wf(prev, classes),
        clean_headers(prev, vtables),
    ensures
        all_wf(cur, classes),
        clean_headers(cur, vtables),
        forall|base: int, top: int| contiguous(prev, base, top, classes)
            ==> contiguous(cur, base, top, classes),
        forall|lo: int, hi: int| objs_within(prev, lo, hi, classes)
            ==> objs_within(cur, lo, hi, classes),
        objs_disjoint(prev, classes) ==> objs_disjoint(cur, classes),
        forall|a: int| objs_has_start(cur, a) <==> objs_has_start(prev, a),
{
    assert(cur[i].wf(classes)) by {
        assert(prev[i].wf(classes));
        match cur[i].body {
            ObjBody::Fixed { fields } => {
                assert(fields@.len() as int == cur[i].spec_num_ref_slots());
            },
            _ => {},
        }
    }
    assert forall|k: int| 0 <= k < cur.len() implies (#[trigger] cur[k]).wf(classes) by {
        if k != i {
            assert(cur[k] == prev[k]);
        }
    }
    assert forall|k: int| 0 <= k < cur.len() implies {
        &&& (#[trigger] cur[k]).header.vtable == ClassWord::Pointer(vtables[cur[k].cls.0 as int])
        &&& !cur[k].header.marked
        &&& cur[k].header.fwdptr.0 % 8 == 0
    } by {
        if k != i {
            assert(cur[k] == prev[k]);
        }
    }
    assert forall|base: int, top: int| contiguous(prev, base, top, classes)
        implies contiguous(cur, base, top, classes) by {
        assert forall|k: int| 0 <= k < cur.len() - 1
            implies (#[trigger] cur[k + 1]).address.0 == cur[k].address.0
                + cur[k].spec_size(classes) by {
            assert(prev[k + 1].address.0 == prev[k].address.0 + prev[k].spec_size(classes));
        }
        if cur.len() > 0 {
            assert(cur[cur.len() - 1].spec_size(classes) == prev[prev.len() - 1].spec_size(classes));
        }
    }
    assert forall|lo: int, hi: int| objs_within(prev, lo, hi, classes)
        implies objs_within(cur, lo, hi, classes) by {
        assert forall|k: int| 0 <= k < cur.len()
            implies lo <= (#[trigger] cur[k]).address.0
                && cur[k].address.0 + cur[k].spec_size(classes) <= hi by {
            assert(lo <= prev[k].address.0
                && prev[k].address.0 + prev[k].spec_size(classes) <= hi);
        }
    }
    if objs_disjoint(prev, classes) {
        assert forall|k: int| 0 <= k < cur.len() - 1
            implies (#[trigger] cur[k]).address.0 + cur[k].spec_size(classes)
                <= cur[k + 1].address.0 by {
            assert(prev[k].address.0 + prev[k].spec_size(classes) <= prev[k + 1].address.0);
        }
    }
    assert forall|a: int| objs_has_start(cur, a) <==> objs_has_start(prev, a) by {
        if objs_has_start(cur, a) {
            let k = choose|k: int| 0 <= k < cur.len() && (#[trigger] cur[k]).address.0 == a;
            assert(prev[k].address.0 == a);
        }
        if objs_has_start(prev, a) {
            let k = choose|k: int| 0 <= k < prev.len() && (#[trigger] prev[k]).address.0 == a;
            assert(cur[k].address.0 == a);
        }
    }
}

/// Returns a mutable handle on one element of a vector.
pub fn vec_index_mut<T>(vec: &mut Vec<T>, i: usize) -> (element: &mut T)
    requires
        i < old(vec).len(),
    ensures
        *element == old(vec)@[i as int],
        final(vec)@ == old(vec)@.update(i as int, *final(element)),
{
    &mut vec[i]
}

/// Finds the index of the object starting at `addr`, scanning linearly.
pub fn find_index(objs: &Vec<Obj>, addr: Address) -> (r: Option<usize>)
    ensures
        match r {
            Some(i) => i < objs@.len() && objs@[i as int].address == addr,
            None => !objs_has_start(objs@, addr.0 as int),
        },
{
    let n = objs.len();
    let mut i: usize = 0;
    while i < n
        invariant
            i <= n,
            n == objs@.len(),
            forall|k: int| 0 <= k < i ==> (#[trigger] objs@[k]).address.0 != addr.0,
        decreases n - i,
    {
        if objs[i].address.to_usize() == addr.to_usize() {
            return Some(i);
        }
        i = i + 1;
    }
    None
}

/// A well-formed object stays well-formed, with the same size, when the class
/// table grows.
pub proof fn lemma_obj_push_class(o: Obj, classes: Seq<ClassData>, data: ClassData)
    requires
        o.wf(classes),
    ensures
        o.wf(classes.push(data)),
        o.spec_size(classes.push(data)) == o.spec_size(classes),
{
    assert(classes.push(data)[o.cls.0 as int] == classes[o.cls.0 as int]);
}

/// `all_wf` is stable under growing the class table.
pub proof fn lemma_all_wf_push_class(objs: Seq<Obj>, classes: Seq<ClassData>, data: ClassData)
    requires
        all_wf(objs, classes),
    ensures
        all_wf(objs, classes.push(data)),
    decreases objs.len(),
{
    assert forall|i: int| 0 <= i < objs.len() implies (#[trigger] objs[i]).wf(classes.push(data))
    by {
        lemma_obj_push_class(objs[i], classes, data);
    }
}

/// Layout predicates are stable under growing the class table, because every
/// object keeps its size.
pub proof fn lemma_layout_push_class(objs: Seq<Obj>, classes: Seq<ClassData>, data: ClassData)
    requires
        all_wf(objs, classes),
    ensures
        forall|i: int| 0 <= i < objs.len()
            ==> (#[trigger] objs[i]).spec_size(classes.push(data)) == objs[i].spec_size(classes),
        forall|base: int, top: int| contiguous(objs, base, top, classes)
            ==> contiguous(objs, base, top, classes.push(data)),
        forall|lo: int, hi: int| objs_within(objs, lo, hi, classes)
            ==> objs_within(objs, lo, hi, classes.push(data)),
        objs_disjoint(objs, classes) ==> objs_disjoint(objs, classes.push(data)),
{
    assert forall|i: int| 0 <= i < objs.len()
        implies (#[trigger] objs[i]).spec_size(classes.push(data)) == objs[i].spec_size(classes)
    by {
        lemma_obj_push_class(objs[i], classes, data);
    }
}

} // verus!
