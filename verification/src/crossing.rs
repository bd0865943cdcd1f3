//! Crossing map: one entry per card of the old generation, locating the
//! first object of each card so a card scanner never has to walk from the
//! start of the generation.

use vstd::prelude::*;
use crate::card::{spec_card_base, spec_card_index, CARD_SIZE};
use crate::class::ClassData;
use crate::object::Obj;

verus! {

/// What a card's entry says about object starts in that card.
#[derive(Clone, Copy, PartialEq, Eq, Structural, Debug)]
pub enum CrossingEntry {
    /// No object starts in or spans into this card.
    NoObject,
    /// The first object in this card starts at this byte offset within it.
    FirstObject(usize),
    /// No object starts in this card; the object spanning into it starts
    /// this many cards earlier.
    StartsEarlier(usize),
}

/// The crossing map: entry `c` describes card `c` of the old generation.
pub struct CrossingMap {
    pub entries: Vec<CrossingEntry>,
}

/// Whether some object of `objs` starts in card `c` of the region starting
/// at `base`.
pub open spec fn starts_in_card(objs: Seq<Obj>, c: int, base: int) -> bool {
    exists|i: int| 0 <= i < objs.len()
        && spec_card_index(#[trigger] objs[i].address.0 as int, base) == c
}

/// Whether some object of `objs` begins before card `c` and reaches into it.
pub open spec fn spans_into_card(
    objs: Seq<Obj>,
    c: int,
    base: int,
    classes: Seq<ClassData>,
) -> bool {
    exists|i: int| 0 <= i < objs.len()
        && (#[trigger] objs[i].address.0 as int) < spec_card_base(c, base)
        && objs[i].address.0 + objs[i].spec_size(classes) > spec_card_base(c, base)
}

/// One card's entry is exact for the layout `objs`: a `FirstObject` entry
/// names the lowest object start in the card, a `StartsEarlier` entry names
/// the card in which the object spanning into this card starts, and
/// `NoObject` means the card is untouched by any object.
pub open spec fn entry_ok(
    entry: CrossingEntry,
    objs: Seq<Obj>,
    c: int,
    base: int,
    classes: Seq<ClassData>,
) -> bool {
    match entry {
        CrossingEntry::FirstObject(off) => {
            &&& off < CARD_SIZE
            &&& off % 8 == 0
            &&& starts_in_card(objs, c, base)
            &&& exists|i: int| 0 <= i < objs.len()
                && (#[trigger] objs[i].address.0 as int) == spec_card_base(c, base) + off
            &&& forall|i: int| 0 <= i < objs.len()
                && spec_card_index(#[trigger] objs[i].address.0 as int, base) == c
                ==> objs[i].address.0 >= spec_card_base(c, base) + off
        },
        CrossingEntry::StartsEarlier(back) => {
            &&& 1 <= back <= c
            &&& !starts_in_card(objs, c, base)
            &&& exists|i: int| 0 <= i < objs.len()
                && spec_card_index(#[trigger] objs[i].address.0 as int, base) == c - back
                && objs[i].address.0 + objs[i].spec_size(classes) > spec_card_base(c, base)
        },
        CrossingEntry::NoObject => {
            &&& !starts_in_card(objs, c, base)
            &&& !spans_into_card(objs, c, base, classes)
        },
    }
}

/// The whole map is exact for the layout `objs`.
pub open spec fn crossing_ok(
    cm: CrossingMap,
    objs: Seq<Obj>,
    base: int,
    classes: Seq<ClassData>,
) -> bool {
    forall|c: int| 0 <= c < cm.entries@.len()
        ==> entry_ok(#[trigger] cm.entries@[c], objs, c, base, classes)
}

impl CrossingMap {
    pub open spec fn spec_len(self) -> int {
        self.entries@.len() as int
    }

    /// A map for `cards` cards, all `NoObject`.
    pub fn new(cards: usize) -> (r: CrossingMap)
        ensures
            r.spec_len() == cards,
            forall|c: int| 0 <= c < cards ==> r.entries@[c] == CrossingEntry::NoObject,
    {
        let mut entries: Vec<CrossingEntry> = Vec::new();
        let mut i: usize = 0;
        while i < cards
            invariant
                i <= cards,
                entries@.len() == i,
                forall|c: int| 0 <= c < i ==> entries@[c] == CrossingEntry::NoObject,
            decreases cards - i,
        {
            entries.push(CrossingEntry::NoObject);
            i = i + 1;
        }
        CrossingMap { entries }
    }

    pub fn entry_at(&self, card: usize) -> (r: CrossingEntry)
        requires
            card < self.spec_len(),
        ensures
            r == self.entries@[card as int],
    {
        self.entries[card]
    }

    /// Records that the first object of `card` starts `offset` bytes into it.
    pub fn record_first_object(&mut self, card: usize, offset: usize)
        requires
            card < old(self).spec_len(),
            offset < 512,
        ensures
            final(self).entries@ == old(self).entries@.update(
                card as int, CrossingEntry::FirstObject(offset)),
    {
        self.entries.set(card, CrossingEntry::FirstObject(offset));
    }

    /// Records that no object starts in `card`; the object spanning into it
    /// starts `back` cards earlier.
    pub fn record_starts_earlier(&mut self, card: usize, back: usize)
        requires
            card < old(self).spec_len(),
        ensures
            final(self).entries@ == old(self).entries@.update(
                card as int, CrossingEntry::StartsEarlier(back)),
    {
        self.entries.set(card, CrossingEntry::StartsEarlier(back));
    }

    /// Records that `card` is untouched by any object.
    pub fn record_no_object(&mut self, card: usize)
        requires
            card < old(self).spec_len(),
        ensures
            final(self).entries@ == old(self).entries@.update(
                card as int, CrossingEntry::NoObject),
    {
        self.entries.set(card, CrossingEntry::NoObject);
    }
}

} // verus!
