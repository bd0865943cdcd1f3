//! Card table: one dirty byte per fixed-size card of the old generation,
//! set by the write barrier on every store of a heap reference into an
//! old-generation slot. It bounds minor root scanning to the dirty cards
//! instead of the whole old generation.

use vstd::prelude::*;
use crate::object::Address;

verus! {

/// Byte size of one card.
pub const CARD_SIZE: usize = 512;

/// Index of the card covering `addr` in a table whose coverage starts at
/// `base`.
pub open spec fn spec_card_index(addr: int, base: int) -> int {
    (addr - base) / (CARD_SIZE as int)
}

/// First byte address of card `card` in a table whose coverage starts at
/// `base`.
pub open spec fn spec_card_base(card: int, base: int) -> int {
    base + card * (CARD_SIZE as int)
}

/// The card table. `base` is the first address of the covered region; entry
/// `c` covers addresses `[base + c * CARD_SIZE, base + (c + 1) * CARD_SIZE)`.
pub struct CardTable {
    pub base: usize,
    pub dirty: Vec<bool>,
}

impl CardTable {
    pub open spec fn wf(self) -> bool {
        &&& self.base as int % (CARD_SIZE as int) == 0
        &&& self.base + self.dirty@.len() * (CARD_SIZE as int) <= usize::MAX
    }

    /// How many cards the table covers.
    pub open spec fn spec_len(self) -> int {
        self.dirty@.len() as int
    }

    /// Whether `addr` lies in the covered region.
    pub open spec fn covers(self, addr: int) -> bool {
        self.base <= addr < self.base + self.dirty@.len() * (CARD_SIZE as int)
    }

    /// A table covering `cards` cards from `base` on, all clean.
    pub fn new(base: usize, cards: usize) -> (r: CardTable)
        requires
            base % 512 == 0,
            base + cards * 512 <= usize::MAX,
        ensures
            r.wf(),
            r.base == base,
            r.spec_len() == cards,
            forall|c: int| 0 <= c < cards ==> !r.dirty@[c],
    {
        let mut dirty: Vec<bool> = Vec::new();
        let mut i: usize = 0;
        while i < cards
            invariant
                i <= cards,
                dirty@.len() == i,
                forall|c: int| 0 <= c < i ==> !dirty@[c],
            decreases cards - i,
        {
            dirty.push(false);
            i = i + 1;
        }
        CardTable { base, dirty }
    }

    /// Index of the card covering `addr`.
    pub fn card_of(&self, addr: Address) -> (r: usize)
        requires
            self.wf(),
            self.covers(addr.0 as int),
        ensures
            r == spec_card_index(addr.0 as int, self.base as int),
            r < self.spec_len(),
    {
        proof {
            lemma_card_index_in_range(addr.0 as int, self.base as int, self.dirty@.len() as int);
        }
        (addr.0 - self.base) / 512
    }

    /// The write barrier's half: marks the card covering `addr` dirty.
    /// Idempotent, a single byte write.
    pub fn mark_dirty(&mut self, addr: Address)
        requires
            old(self).wf(),
            old(self).covers(addr.0 as int),
        ensures
            final(self).base == old(self).base,
            final(self).dirty@ == old(self).dirty@.update(
                spec_card_index(addr.0 as int, old(self).base as int), true),
            final(self).wf(),
            final(self).dirty@[spec_card_index(addr.0 as int, old(self).base as int)],
    {
        let c = self.card_of(addr);
        self.dirty.set(c, true);
    }

    pub fn is_dirty(&self, card: usize) -> (r: bool)
        requires
            card < self.spec_len(),
        ensures
            r == self.dirty@[card as int],
    {
        self.dirty[card]
    }

    /// Cleans one card.
    pub fn clear(&mut self, card: usize)
        requires
            card < old(self).spec_len(),
        ensures
            final(self).base == old(self).base,
            final(self).dirty@ == old(self).dirty@.update(card as int, false),
    {
        self.dirty.set(card, false);
    }

    /// Cleans every card; done at the end of a full cycle, when the young
    /// generation is empty and no card can hold a young-generation pointer.
    pub fn clear_all(&mut self)
        ensures
            final(self).base == old(self).base,
            final(self).spec_len() == old(self).spec_len(),
            forall|c: int| 0 <= c < final(self).spec_len() ==> !final(self).dirty@[c],
    {
        let n = self.dirty.len();
        let mut i: usize = 0;
        while i < n
            invariant
                i <= n,
                self.dirty@.len() == n,
                self.base == old(self).base,
                forall|c: int| 0 <= c < i ==> !self.dirty@[c],
            decreases n - i,
        {
            self.dirty.set(i, false);
            i = i + 1;
        }
    }

    /// The indices of the dirty cards, in increasing order — the lazy
    /// sequence a collection walks; it is recomputed per cycle, never
    /// persisted across cycles.
    pub fn dirty_cards(&self) -> (r: Vec<usize>)
        ensures
            forall|j1: int, j2: int| 0 <= j1 < j2 < r@.len() ==> r@[j1] < r@[j2],
            forall|j: int| 0 <= j < r@.len()
                ==> r@[j] < self.spec_len() && self.dirty@[r@[j] as int],
            forall|c: int| 0 <= c < self.spec_len() && self.dirty@[c]
                ==> r@.contains(c as usize),
    {
        let mut r: Vec<usize> = Vec::new();
        let n = self.dirty.len();
        let mut i: usize = 0;
        while i < n
            invariant
                i <= n,
                n == self.spec_len(),
                forall|j1: int, j2: int| 0 <= j1 < j2 < r@.len() ==> r@[j1] < r@[j2],
                forall|j: int| 0 <= j < r@.len()
                    ==> r@[j] < i && self.dirty@[r@[j] as int],
                forall|c: int| 0 <= c < i && self.dirty@[c] ==> r@.contains(c as usize),
            decreases n - i,
        {
            if self.dirty[i] {
                let ghost prev = r@;
                r.push(i);
                proof {
                    assert forall|c: int| 0 <= c <= i && self.dirty@[c]
                        implies r@.contains(c as usize) by {
                        if c < i {
                            let j = choose|j: int| 0 <= j < prev.len() && prev[j] == c as usize;
                            assert(r@[j] == c as usize);
                        } else {
                            assert(r@[r@.len() - 1] == i);
                        }
                    }
                }
            }
            i = i + 1;
        }
        r
    }
}

/// The card covering an in-range address is an in-range card.
pub proof fn lemma_card_index_in_range(addr: int, base: int, cards: int)
    requires
        base <= addr < base + cards * (CARD_SIZE as int),
        cards >= 0,
    ensures
        0 <= spec_card_index(addr, base) < cards,
{
    let d = addr - base;
    vstd::arithmetic::div_mod::lemma_fundamental_div_mod(d, CARD_SIZE as int);
    vstd::arithmetic::div_mod::lemma_mod_bound(d, CARD_SIZE as int);
    let q = d / (CARD_SIZE as int);
    if q >= cards {
        assert(q * 512 >= cards * 512) by (nonlinear_arith)
            requires
                q >= cards,
        ;
    }
}

} // verus!
