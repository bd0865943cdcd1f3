//! Class/vtable descriptors, reduced to what the collector consumes: a size
//! policy and the offsets of the reference-typed fields of a fixed-size
//! instance.

use vstd::prelude::*;
use crate::mem;

verus! {

/// Index of a class in the heap's class table.
#[derive(Clone, Copy, PartialEq, Eq, Structural, Debug)]
pub struct ClassDefId(pub usize);

/// Size policy of a class: how the byte size of an instance is derived.
#[derive(Clone, Copy, PartialEq, Eq, Structural, Debug)]
pub enum ClassSize {
    /// Fixed-size instance; the payload size is fixed by the class.
    Fixed(usize),
    /// Array of references, one pointer-sized slot per element.
    ObjArray,
    /// Free-list array: same layout as an array of references.
    FreeArray,
    /// Array of primitive elements of the given byte width.
    Array(usize),
    /// Length-prefixed immutable byte buffer.
    Str,
}

/// What the collector reads from a class descriptor.
#[derive(Clone, Debug)]
pub struct ClassData {
    pub size: ClassSize,
    /// Byte offsets of the reference-typed fields of a fixed-size instance,
    /// strictly increasing; empty for array and string classes.
    pub ref_fields: Vec<usize>,
}

impl ClassData {
    /// A well-formed descriptor: a fixed size covers at least the header and
    /// is pointer-aligned, an element width is one of the machine widths, and
    /// the reference fields are pointer-aligned, strictly increasing slots
    /// inside the instance payload.
    pub open spec fn wf(self) -> bool {
        match self.size {
            ClassSize::Fixed(size) => {
                &&& 16 <= size <= usize::MAX - 8
                &&& size % 8 == 0
                &&& forall|i: int| 0 <= i < self.ref_fields@.len() ==> {
                    &&& 16 <= #[trigger] self.ref_fields@[i]
                    &&& self.ref_fields@[i] + 8 <= size
                    &&& self.ref_fields@[i] % 8 == 0
                }
                &&& forall|i: int, j: int| 0 <= i < j < self.ref_fields@.len()
                    ==> #[trigger] self.ref_fields@[i] < #[trigger] self.ref_fields@[j]
            },
            ClassSize::ObjArray => self.ref_fields@.len() == 0,
            ClassSize::FreeArray => self.ref_fields@.len() == 0,
            ClassSize::Array(element_size) => {
                &&& (element_size == 1 || element_size == 2 || element_size == 4
                    || element_size == 8)
                &&& self.ref_fields@.len() == 0
            },
            ClassSize::Str => self.ref_fields@.len() == 0,
        }
    }
}

/// Byte size of an array object: header, length field, then the elements,
/// rounded up to pointer alignment.
pub open spec fn array_size(len: nat, element_size: nat) -> int {
    mem::align_up(16 + 8 + len * element_size as int, 8)
}

/// Byte size of a string object: header, length field, then the bytes,
/// rounded up to pointer alignment.
pub open spec fn str_size(len: nat) -> int {
    mem::align_up(16 + 8 + len as int, 8)
}

} // verus!
