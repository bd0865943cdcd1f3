//! The full collector: one stop-the-world cycle through
//! mark -> evacuate -> sweep/compact -> repair.

use vstd::prelude::*;
use crate::class::ClassData;
use crate::heap::{
    all_unmarked, all_wf, contiguous, find_index, headers_plain, lemma_contiguous_disjoint,
    lemma_index_unique, objs_disjoint, objs_has_start, objs_within, vec_index_mut, Heap,
};
use crate::object::{Address, Header, Obj, ObjBody};

verus! {

/// `cur` is `prev` with some mark bits set and nothing else changed; marks
/// are never cleared by marking.
pub open spec fn marks_grow(prev: Seq<Obj>, cur: Seq<Obj>) -> bool {
    &&& cur.len() == prev.len()
    &&& forall|i: int| 0 <= i < prev.len() ==> (#[trigger] cur[i]) == (Obj {
        header: Header { marked: cur[i].header.marked, ..prev[i].header },
        ..prev[i]
    }) && (prev[i].header.marked ==> cur[i].header.marked)
}

/// The object starting at `a` exists and is marked.
pub open spec fn marked_at(h: Heap, a: Address) -> bool {
    &&& h.has_obj_at(a.0 as int)
    &&& h.spec_obj_at(a.0 as int).header.marked
}

/// Every reference slot of every marked object of `objs` points at a marked
/// object (or is null): the closure property marking establishes.
pub open spec fn marks_closed_list(h: Heap, objs: Seq<Obj>) -> bool {
    forall|i: int, j: int| 0 <= i < objs.len() && (#[trigger] objs[i]).header.marked
        && 0 <= j < objs[i].spec_num_ref_slots()
        && (#[trigger] objs[i].spec_ref_slot(j)).0 != 0
        ==> marked_at(h, objs[i].spec_ref_slot(j))
}

/// The closure property over the whole heap.
pub open spec fn marks_closed(h: Heap) -> bool {
    &&& marks_closed_list(h, h.young_objs@)
    &&& marks_closed_list(h, h.old_objs@)
    &&& marks_closed_list(h, h.large_objs@)
}

/// `a` is the address of an object reachable from `roots` within `n`
/// reference-following steps.
#[verifier::opaque]
pub open spec fn reachable_n(h: Heap, roots: Seq<Address>, a: Address, n: nat) -> bool
    decreases n,
{
    if n == 0 {
        roots.contains(a) && a.0 != 0
    } else {
        reachable_n(h, roots, a, (n - 1) as nat) || (a.0 != 0 && exists|b: Address, j: int|
            reachable_n(h, roots, b, (n - 1) as nat) && h.has_obj_at(b.0 as int)
            && 0 <= j < h.spec_obj_at(b.0 as int).spec_num_ref_slots()
            && #[trigger] h.spec_obj_at(b.0 as int).spec_ref_slot(j) == a)
    }
}

/// `a` is the address of an object reachable from the root set by following
/// reference fields.
pub open spec fn reachable(h: Heap, roots: Seq<Address>, a: Address) -> bool {
    exists|n: nat| reachable_n(h, roots, a, n)
}

/// How many objects of `objs` are unmarked; the marking phase's termination
/// measure.
pub open spec fn unmarked_count(objs: Seq<Obj>) -> nat
    decreases objs.len(),
{
    if objs.len() == 0 {
        0
    } else {
        unmarked_count(objs.drop_last()) + if objs.last().header.marked {
            0nat
        } else {
            1nat
        }
    }
}

/// Marking one unmarked object lowers the unmarked count by one.
pub proof fn lemma_unmarked_count_update(prev: Seq<Obj>, cur: Seq<Obj>, i: int)
    requires
        0 <= i < prev.len(),
        cur.len() == prev.len(),
        forall|k: int| 0 <= k < prev.len() && k != i ==> #[trigger] cur[k] == prev[k],
        !prev[i].header.marked,
        cur[i].header.marked,
    ensures
        unmarked_count(cur) + 1 == unmarked_count(prev),
    decreases prev.len(),
{
    if i == prev.len() - 1 {
        assert(cur.drop_last() =~= prev.drop_last());
    } else {
        assert(cur.drop_last().len() == prev.drop_last().len());
        assert(forall|k: int| 0 <= k < prev.drop_last().len() && k != i
            ==> #[trigger] cur.drop_last()[k] == prev.drop_last()[k]);
        lemma_unmarked_count_update(prev.drop_last(), cur.drop_last(), i);
    }
}

/// Marks never grow the unmarked count.
pub proof fn lemma_unmarked_count_monotone(prev: Seq<Obj>, cur: Seq<Obj>)
    requires
        marks_grow(prev, cur),
    ensures
        unmarked_count(cur) <= unmarked_count(prev),
    decreases prev.len(),
{
    if prev.len() > 0 {
        assert(marks_grow(prev.drop_last(), cur.drop_last())) by {
            assert(forall|i: int| 0 <= i < prev.drop_last().len()
                ==> #[trigger] cur.drop_last()[i] == cur[i]
                    && prev.drop_last()[i] == prev[i]);
        }
        lemma_unmarked_count_monotone(prev.drop_last(), cur.drop_last());
    }
}

/// The total termination measure for marking.
pub open spec fn unmarked_total(h: Heap) -> nat {
    unmarked_count(h.young_objs@) + unmarked_count(h.old_objs@)
        + unmarked_count(h.large_objs@)
}

/// What marking leaves untouched, and that marks only grow.
pub open spec fn mark_frame(pre: Heap, post: Heap) -> bool {
    &&& post.classes@ == pre.classes@
    &&& post.vtables@ == pre.vtables@
    &&& post.young == pre.young
    &&& post.old == pre.old
    &&& post.large == pre.large
    &&& post.perm == pre.perm
    &&& post.card_table == pre.card_table
    &&& post.crossing == pre.crossing
    &&& marks_grow(pre.young_objs@, post.young_objs@)
    &&& marks_grow(pre.old_objs@, post.old_objs@)
    &&& marks_grow(pre.large_objs@, post.large_objs@)
}

/// `mark_frame` composes.
pub proof fn lemma_mark_frame_trans(a: Heap, b: Heap, c: Heap)
    requires
        mark_frame(a, b),
        mark_frame(b, c),
    ensures
        mark_frame(a, c),
{
}

/// Changing only mark bits moves every layout fact across.
pub proof fn lemma_marks_grow_layout(
    prev: Seq<Obj>,
    cur: Seq<Obj>,
    classes: Seq<ClassData>,
    vtables: Seq<Address>,
)
    requires
        marks_grow(prev, cur),
        all_wf(prev, classes),
        headers_plain(prev, vtables),
    ensures
        all_wf(cur, classes),
        headers_plain(cur, vtables),
        forall|base: int, top: int| contiguous(prev, base, top, classes)
            ==> contiguous(cur, base, top, classes),
        forall|lo: int, hi: int| objs_within(prev, lo, hi, classes)
            ==> objs_within(cur, lo, hi, classes),
        objs_disjoint(prev, classes) ==> objs_disjoint(cur, classes),
        forall|a: int| objs_has_start(cur, a) <==> objs_has_start(prev, a),
{
    assert forall|i: int| 0 <= i < cur.len() implies (#[trigger] cur[i]).wf(classes) by {
        assert(prev[i].wf(classes));
        assert(cur[i].body == prev[i].body);
        assert(cur[i].cls == prev[i].cls);
        assert(cur[i].address == prev[i].address);
    }
    assert forall|base: int, top: int| contiguous(prev, base, top, classes)
        implies contiguous(cur, base, top, classes) by {
        assert forall|i: int| 0 <= i < cur.len() - 1
            implies (#[trigger] cur[i + 1]).address.0 == cur[i].address.0
                + cur[i].spec_size(classes) by {
            assert(prev[i + 1].address.0 == prev[i].address.0 + prev[i].spec_size(classes));
        }
    }
    assert forall|lo: int, hi: int| objs_within(prev, lo, hi, classes)
        implies objs_within(cur, lo, hi, classes) by {
        assert forall|i: int| 0 <= i < cur.len()
            implies lo <= (#[trigger] cur[i]).address.0
                && cur[i].address.0 + cur[i].spec_size(classes) <= hi by {
            assert(lo <= prev[i].address.0
                && prev[i].address.0 + prev[i].spec_size(classes) <= hi);
        }
    }
    if objs_disjoint(prev, classes) {
        assert forall|i: int| 0 <= i < cur.len() - 1
            implies (#[trigger] cur[i]).address.0 + cur[i].spec_size(classes)
                <= cur[i + 1].address.0 by {
            assert(prev[i].address.0 + prev[i].spec_size(classes) <= prev[i + 1].address.0);
        }
    }
    assert forall|a: int| objs_has_start(cur, a) <==> objs_has_start(prev, a) by {
        if objs_has_start(cur, a) {
            let k = choose|k: int| 0 <= k < cur.len() && (#[trigger] cur[k]).address.0 == a;
            assert(prev[k].address.0 == a);
        }
        if objs_has_start(prev, a) {
            let k = choose|k: int| 0 <= k < prev.len() && (#[trigger] prev[k]).address.0 == a;
            assert(cur[k].address.0 == a);
        }
    }
}

/// `mark_frame` keeps the relaxed heap invariant and the valid-reference
/// facts, and marked objects stay marked.
pub proof fn lemma_mark_frame_wf(pre: Heap, post: Heap)
    requires
        pre.wf_marked(),
        mark_frame(pre, post),
    ensures
        post.wf_marked(),
        forall|a: int| pre.has_obj_at(a) <==> post.has_obj_at(a),
        forall|a: Address| marked_at(pre, a) ==> marked_at(post, a),
        forall|a: Address| pre.valid_ref(a) ==> post.valid_ref(a),
        unmarked_total(post) <= unmarked_total(pre),
{
    lemma_marks_grow_layout(pre.young_objs@, post.young_objs@, pre.classes@, pre.vtables@);
    lemma_marks_grow_layout(pre.old_objs@, post.old_objs@, pre.classes@, pre.vtables@);
    lemma_marks_grow_layout(pre.large_objs@, post.large_objs@, pre.classes@, pre.vtables@);
    lemma_unmarked_count_monotone(pre.young_objs@, post.young_objs@);
    lemma_unmarked_count_monotone(pre.old_objs@, post.old_objs@);
    lemma_unmarked_count_monotone(pre.large_objs@, post.large_objs@);
    assert(post.refs_valid()) by {
        assert forall|i: int, j: int| 0 <= i < post.young_objs@.len()
            && 0 <= j < (#[trigger] post.young_objs@[i]).spec_num_ref_slots()
            implies post.valid_ref(#[trigger] post.young_objs@[i].spec_ref_slot(j)) by {
            assert(post.young_objs@[i].spec_ref_slot(j)
                == pre.young_objs@[i].spec_ref_slot(j));
            assert(pre.valid_ref(pre.young_objs@[i].spec_ref_slot(j)));
        }
        assert forall|i: int, j: int| 0 <= i < post.old_objs@.len()
            && 0 <= j < (#[trigger] post.old_objs@[i]).spec_num_ref_slots()
            implies post.valid_ref(#[trigger] post.old_objs@[i].spec_ref_slot(j)) by {
            assert(post.old_objs@[i].spec_ref_slot(j) == pre.old_objs@[i].spec_ref_slot(j));
            assert(pre.valid_ref(pre.old_objs@[i].spec_ref_slot(j)));
        }
        assert forall|i: int, j: int| 0 <= i < post.large_objs@.len()
            && 0 <= j < (#[trigger] post.large_objs@[i]).spec_num_ref_slots()
            implies post.valid_ref(#[trigger] post.large_objs@[i].spec_ref_slot(j)) by {
            assert(post.large_objs@[i].spec_ref_slot(j)
                == pre.large_objs@[i].spec_ref_slot(j));
            assert(pre.valid_ref(pre.large_objs@[i].spec_ref_slot(j)));
        }
    }
    assert forall|a: Address| marked_at(pre, a) implies marked_at(post, a) by {
        lemma_obj_at_stable(pre, post, a.0 as int);
    }
}

/// Under `mark_frame`, the object found at an address keeps everything but
/// its mark bit, and its mark only grows.
pub proof fn lemma_obj_at_stable(pre: Heap, post: Heap, a: int)
    requires
        pre.wf_marked(),
        mark_frame(pre, post),
        pre.has_obj_at(a),
    ensures
        post.has_obj_at(a),
        post.spec_obj_at(a).address == pre.spec_obj_at(a).address,
        post.spec_obj_at(a).cls == pre.spec_obj_at(a).cls,
        post.spec_obj_at(a).body == pre.spec_obj_at(a).body,
        pre.spec_obj_at(a).header.marked ==> post.spec_obj_at(a).header.marked,
{
    lemma_marks_grow_layout(pre.young_objs@, post.young_objs@, pre.classes@, pre.vtables@);
    lemma_marks_grow_layout(pre.old_objs@, post.old_objs@, pre.classes@, pre.vtables@);
    lemma_marks_grow_layout(pre.large_objs@, post.large_objs@, pre.classes@, pre.vtables@);
    if objs_has_start(pre.young_objs@, a) {
        let i = crate::heap::objs_index_of(pre.young_objs@, a);
        let i2 = crate::heap::objs_index_of(post.young_objs@, a);
        lemma_contiguous_disjoint(pre.young_objs@, pre.young.base as int, pre.young.top as int,
            pre.classes@);
        lemma_contiguous_disjoint(post.young_objs@, pre.young.base as int,
            pre.young.top as int, pre.classes@);
        lemma_index_unique(pre.young_objs@, pre.classes@, a);
        lemma_index_unique(post.young_objs@, pre.classes@, a);
        assert(post.young_objs@[i].address.0 == a);
        assert(i2 == i);
    } else if objs_has_start(pre.old_objs@, a) {
        let i = crate::heap::objs_index_of(pre.old_objs@, a);
        let i2 = crate::heap::objs_index_of(post.old_objs@, a);
        lemma_contiguous_disjoint(pre.old_objs@, pre.old.base as int, pre.old.top as int,
            pre.classes@);
        lemma_contiguous_disjoint(post.old_objs@, pre.old.base as int, pre.old.top as int,
            pre.classes@);
        lemma_index_unique(pre.old_objs@, pre.classes@, a);
        lemma_index_unique(post.old_objs@, pre.classes@, a);
        assert(post.old_objs@[i].address.0 == a);
        assert(i2 == i);
    } else {
        let i = crate::heap::objs_index_of(pre.large_objs@, a);
        let i2 = crate::heap::objs_index_of(post.large_objs@, a);
        lemma_index_unique(pre.large_objs@, pre.classes@, a);
        lemma_index_unique(post.large_objs@, pre.classes@, a);
        assert(post.large_objs@[i].address.0 == a);
        assert(i2 == i);
    }
}

/// Reachability only reads object starts and slot values, which a marking
/// step preserves.
pub proof fn lemma_reachable_n_frame(pre: Heap, post: Heap, roots: Seq<Address>, a: Address,
    n: nat)
    requires
        pre.wf_marked(),
        mark_frame(pre, post),
        reachable_n(pre, roots, a, n),
    ensures
        reachable_n(post, roots, a, n),
    decreases n,
{
    reveal_with_fuel(reachable_n, 2);
    if n > 0 {
        if reachable_n(pre, roots, a, (n - 1) as nat) {
            lemma_reachable_n_frame(pre, post, roots, a, (n - 1) as nat);
        } else {
            let (b, j) = choose|b: Address, j: int|
                reachable_n(pre, roots, b, (n - 1) as nat) && pre.has_obj_at(b.0 as int)
                && 0 <= j < pre.spec_obj_at(b.0 as int).spec_num_ref_slots()
                && #[trigger] pre.spec_obj_at(b.0 as int).spec_ref_slot(j) == a;
            lemma_reachable_n_frame(pre, post, roots, b, (n - 1) as nat);
            lemma_mark_frame_wf(pre, post);
            lemma_obj_at_stable(pre, post, b.0 as int);
            assert(post.spec_obj_at(b.0 as int).spec_ref_slot(j) == a);
        }
    }
}

/// In a heap whose mark bits are all clear, nothing is marked.
pub proof fn lemma_unmarked_heap(h: Heap)
    requires
        h.wf_marked(),
        all_unmarked(h.young_objs@),
        all_unmarked(h.old_objs@),
        all_unmarked(h.large_objs@),
    ensures
        forall|a: Address| !marked_at(h, a),
{
    assert forall|a: Address| !marked_at(h, a) by {
        if marked_at(h, a) {
            if objs_has_start(h.young_objs@, a.0 as int) {
                let i = crate::heap::objs_index_of(h.young_objs@, a.0 as int);
            } else if objs_has_start(h.old_objs@, a.0 as int) {
                let i = crate::heap::objs_index_of(h.old_objs@, a.0 as int);
            } else {
                let i = crate::heap::objs_index_of(h.large_objs@, a.0 as int);
            }
        }
    }
}

/// A marked object's non-null slot values are marked too (the per-address
/// face of `marks_closed`).
pub proof fn lemma_marked_slot_closed(h: Heap, b: Address, j: int)
    requires
        h.wf_marked(),
        marks_closed(h),
        marked_at(h, b),
        0 <= j < h.spec_obj_at(b.0 as int).spec_num_ref_slots(),
        h.spec_obj_at(b.0 as int).spec_ref_slot(j).0 != 0,
    ensures
        marked_at(h, h.spec_obj_at(b.0 as int).spec_ref_slot(j)),
{
    if objs_has_start(h.young_objs@, b.0 as int) {
        lemma_contiguous_disjoint(h.young_objs@, h.young.base as int, h.young.top as int,
            h.classes@);
        lemma_index_unique(h.young_objs@, h.classes@, b.0 as int);
        let i = crate::heap::objs_index_of(h.young_objs@, b.0 as int);
        assert(h.spec_obj_at(b.0 as int) == h.young_objs@[i]);
        assert(marks_closed_list(h, h.young_objs@));
    } else if objs_has_start(h.old_objs@, b.0 as int) {
        lemma_contiguous_disjoint(h.old_objs@, h.old.base as int, h.old.top as int,
            h.classes@);
        lemma_index_unique(h.old_objs@, h.classes@, b.0 as int);
        let i = crate::heap::objs_index_of(h.old_objs@, b.0 as int);
        assert(h.spec_obj_at(b.0 as int) == h.old_objs@[i]);
        assert(marks_closed_list(h, h.old_objs@));
    } else {
        lemma_index_unique(h.large_objs@, h.classes@, b.0 as int);
        let i = crate::heap::objs_index_of(h.large_objs@, b.0 as int);
        assert(h.spec_obj_at(b.0 as int) == h.large_objs@[i]);
        assert(marks_closed_list(h, h.large_objs@));
    }
}

/// With the roots marked and the marks closed, every reachable object is
/// marked: the mark bits form a superset of the reachable set. Together with
/// the minimality `mark_live` states, an object is marked exactly when it is
/// reachable from the root set.
pub proof fn lemma_reachable_is_marked(h: Heap, roots: Seq<Address>, a: Address, n: nat)
    requires
        h.wf_marked(),
        marks_closed(h),
        forall|k: int| 0 <= k < roots.len() && (#[trigger] roots[k]).0 != 0
            ==> marked_at(h, roots[k]),
        reachable_n(h, roots, a, n),
    ensures
        marked_at(h, a),
    decreases n,
{
    reveal_with_fuel(reachable_n, 2);
    if n == 0 {
        let k = choose|k: int| 0 <= k < roots.len() && roots[k] == a;
        assert(roots[k].0 != 0);
    } else {
        if reachable_n(h, roots, a, (n - 1) as nat) {
            lemma_reachable_is_marked(h, roots, a, (n - 1) as nat);
        } else {
            let (b, j) = choose|b: Address, j: int|
                reachable_n(h, roots, b, (n - 1) as nat) && h.has_obj_at(b.0 as int)
                && 0 <= j < h.spec_obj_at(b.0 as int).spec_num_ref_slots()
                && #[trigger] h.spec_obj_at(b.0 as int).spec_ref_slot(j) == a;
            lemma_reachable_is_marked(h, roots, b, (n - 1) as nat);
            lemma_marked_slot_closed(h, b, j);
        }
    }
}

/// The mark bits of `post` equal those of `pre` (used to detect a completed
/// fixpoint pass).
pub open spec fn lists_eq(pre: Heap, post: Heap) -> bool {
    &&& post.young_objs@ == pre.young_objs@
    &&& post.old_objs@ == pre.old_objs@
    &&& post.large_objs@ == pre.large_objs@
}

/// Marks the object starting at `v`, reporting whether this call was the
/// one to set the bit — the heap-level face of `try_mark`.
#[verifier::rlimit(100)]
fn mark_one_target(heap: &mut Heap, v: Address) -> (won: bool)
    requires
        old(heap).wf_marked(),
        v.0 != 0,
        old(heap).has_obj_at(v.0 as int),
    ensures
        final(heap).wf_marked(),
        mark_frame(*old(heap), *final(heap)),
        marked_at(*final(heap), v),
        won == !marked_at(*old(heap), v),
        forall|a: Address| marked_at(*final(heap), a) ==> marked_at(*old(heap), a) || a == v,
        won ==> unmarked_total(*final(heap)) < unmarked_total(*old(heap)),
        !won ==> lists_eq(*old(heap), *final(heap)),
{
    let ghost pre = *heap;
    proof {
        lemma_contiguous_disjoint(pre.young_objs@, pre.young.base as int, pre.young.top as int,
            pre.classes@);
        lemma_contiguous_disjoint(pre.old_objs@, pre.old.base as int, pre.old.top as int,
            pre.classes@);
    }
    if let Some(i) = find_index(&heap.young_objs, v) {
        proof {
            lemma_index_unique(pre.young_objs@, pre.classes@, v.0 as int);
        }
        let o = vec_index_mut(&mut heap.young_objs, i);
        let won = o.header_mut().try_mark();
        proof {
            mark_one_post_young(pre, *heap, v, i as int);
            if won {
                lemma_unmarked_count_update(pre.young_objs@, heap.young_objs@, i as int);
            } else {
                assert(heap.young_objs@ =~= pre.young_objs@);
            }
        }
        won
    } else if let Some(i) = find_index(&heap.old_objs, v) {
        proof {
            lemma_index_unique(pre.old_objs@, pre.classes@, v.0 as int);
        }
        let o = vec_index_mut(&mut heap.old_objs, i);
        let won = o.header_mut().try_mark();
        proof {
            mark_one_post_old(pre, *heap, v, i as int);
            if won {
                lemma_unmarked_count_update(pre.old_objs@, heap.old_objs@, i as int);
            } else {
                assert(heap.old_objs@ =~= pre.old_objs@);
            }
        }
        won
    } else if let Some(i) = find_index(&heap.large_objs, v) {
        proof {
            lemma_index_unique(pre.large_objs@, pre.classes@, v.0 as int);
        }
        let o = vec_index_mut(&mut heap.large_objs, i);
        let won = o.header_mut().try_mark();
        proof {
            mark_one_post_large(pre, *heap, v, i as int);
            if won {
                lemma_unmarked_count_update(pre.large_objs@, heap.large_objs@, i as int);
            } else {
                assert(heap.large_objs@ =~= pre.large_objs@);
            }
        }
        won
    } else {
        proof {
            assert(false);
        }
        false
    }
}

/// Common requirements of the three mark_one_post lemmas: the untouched
/// fields.
pub open spec fn mark_one_frame(pre: Heap, post: Heap) -> bool {
    &&& post.classes@ == pre.classes@
    &&& post.vtables@ == pre.vtables@
    &&& post.young == pre.young
    &&& post.old == pre.old
    &&& post.large == pre.large
    &&& post.perm == pre.perm
    &&& post.card_table == pre.card_table
    &&& post.crossing == pre.crossing
}

/// One marked element extends `marks_grow`.
proof fn lemma_marks_grow_update(prev: Seq<Obj>, cur: Seq<Obj>, i: int)
    requires
        0 <= i < prev.len(),
        cur.len() == prev.len(),
        forall|k: int| 0 <= k < prev.len() && k != i ==> #[trigger] cur[k] == prev[k],
        cur[i] == (Obj { header: Header { marked: true, ..prev[i].header }, ..prev[i] }),
    ensures
        marks_grow(prev, cur),
{
    assert forall|k: int| 0 <= k < prev.len() implies (#[trigger] cur[k]) == (Obj {
        header: Header { marked: cur[k].header.marked, ..prev[k].header },
        ..prev[k]
    }) && (prev[k].header.marked ==> cur[k].header.marked) by {
        if k != i {
            assert(cur[k] == prev[k]);
        }
    }
}

/// After marking index `i` of the young list, the frame holds and the
/// object at `v` is marked.
proof fn mark_one_post_young(pre: Heap, post: Heap, v: Address, i: int)
    requires
        pre.wf_marked(),
        v.0 != 0,
        mark_one_frame(pre, post),
        post.old_objs@ == pre.old_objs@,
        post.large_objs@ == pre.large_objs@,
        0 <= i < pre.young_objs@.len(),
        post.young_objs@.len() == pre.young_objs@.len(),
        forall|k: int| 0 <= k < pre.young_objs@.len() && k != i
            ==> #[trigger] post.young_objs@[k] == pre.young_objs@[k],
        post.young_objs@[i] == (Obj {
            header: Header { marked: true, ..pre.young_objs@[i].header },
            ..pre.young_objs@[i]
        }),
        pre.young_objs@[i].address == v,
    ensures
        post.wf_marked(),
        mark_frame(pre, post),
        marked_at(post, v),
        marked_at(pre, v) <==> pre.young_objs@[i].header.marked,
        forall|a: Address| marked_at(post, a) ==> marked_at(pre, a) || a == v,
{
    lemma_marks_grow_update(pre.young_objs@, post.young_objs@, i);
    assert(marks_grow(pre.old_objs@, post.old_objs@));
    assert(marks_grow(pre.large_objs@, post.large_objs@));
    lemma_mark_frame_wf(pre, post);
    lemma_contiguous_disjoint(pre.young_objs@, pre.young.base as int, pre.young.top as int,
        pre.classes@);
    lemma_marks_grow_layout(pre.young_objs@, post.young_objs@, pre.classes@, pre.vtables@);
    lemma_contiguous_disjoint(post.young_objs@, pre.young.base as int, pre.young.top as int,
        pre.classes@);
    lemma_index_unique(pre.young_objs@, pre.classes@, v.0 as int);
    lemma_index_unique(post.young_objs@, pre.classes@, v.0 as int);
    assert(post.young_objs@[i].address.0 == v.0 as int);
    assert(post.spec_obj_at(v.0 as int) == post.young_objs@[i]);
    assert(pre.spec_obj_at(v.0 as int) == pre.young_objs@[i]);
    assert forall|a: Address| marked_at(post, a) implies marked_at(pre, a) || a == v by {
        if objs_has_start(post.young_objs@, a.0 as int) {
            lemma_index_unique(post.young_objs@, pre.classes@, a.0 as int);
            lemma_index_unique(pre.young_objs@, pre.classes@, a.0 as int);
            let k = crate::heap::objs_index_of(post.young_objs@, a.0 as int);
            if k == i {
                assert(a == v);
            } else {
                assert(post.young_objs@[k] == pre.young_objs@[k]);
                assert(crate::heap::objs_index_of(pre.young_objs@, a.0 as int) == k);
            }
        }
    }
}

/// After marking index `i` of the old list, the frame holds and the object
/// at `v` is marked.
proof fn mark_one_post_old(pre: Heap, post: Heap, v: Address, i: int)
    requires
        pre.wf_marked(),
        v.0 != 0,
        mark_one_frame(pre, post),
        post.young_objs@ == pre.young_objs@,
        post.large_objs@ == pre.large_objs@,
        0 <= i < pre.old_objs@.len(),
        post.old_objs@.len() == pre.old_objs@.len(),
        forall|k: int| 0 <= k < pre.old_objs@.len() && k != i
            ==> #[trigger] post.old_objs@[k] == pre.old_objs@[k],
        post.old_objs@[i] == (Obj {
            header: Header { marked: true, ..pre.old_objs@[i].header },
            ..pre.old_objs@[i]
        }),
        pre.old_objs@[i].address == v,
    ensures
        post.wf_marked(),
        mark_frame(pre, post),
        marked_at(post, v),
        marked_at(pre, v) <==> pre.old_objs@[i].header.marked,
        forall|a: Address| marked_at(post, a) ==> marked_at(pre, a) || a == v,
{
    lemma_marks_grow_update(pre.old_objs@, post.old_objs@, i);
    assert(marks_grow(pre.young_objs@, post.young_objs@));
    assert(marks_grow(pre.large_objs@, post.large_objs@));
    lemma_mark_frame_wf(pre, post);
    lemma_contiguous_disjoint(pre.old_objs@, pre.old.base as int, pre.old.top as int,
        pre.classes@);
    lemma_marks_grow_layout(pre.old_objs@, post.old_objs@, pre.classes@, pre.vtables@);
    lemma_contiguous_disjoint(post.old_objs@, pre.old.base as int, pre.old.top as int,
        pre.classes@);
    lemma_index_unique(pre.old_objs@, pre.classes@, v.0 as int);
    lemma_index_unique(post.old_objs@, pre.classes@, v.0 as int);
    assert(!objs_has_start(pre.young_objs@, v.0 as int)) by {
        if objs_has_start(pre.young_objs@, v.0 as int) {
            let k = choose|k: int| 0 <= k < pre.young_objs@.len()
                && (#[trigger] pre.young_objs@[k]).address.0 == v.0 as int;
            assert(pre.young_objs@[k].address.0 + pre.young_objs@[k].spec_size(pre.classes@)
                <= pre.young.top);
            assert(pre.old_objs@[i].address.0 >= pre.old.base);
        }
    }
    assert(post.old_objs@[i].address.0 == v.0 as int);
    assert(post.spec_obj_at(v.0 as int) == post.old_objs@[i]);
    assert(pre.spec_obj_at(v.0 as int) == pre.old_objs@[i]);
    assert forall|a: Address| marked_at(post, a) implies marked_at(pre, a) || a == v by {
        if !objs_has_start(post.young_objs@, a.0 as int)
            && objs_has_start(post.old_objs@, a.0 as int) {
            lemma_index_unique(post.old_objs@, pre.classes@, a.0 as int);
            lemma_index_unique(pre.old_objs@, pre.classes@, a.0 as int);
            let k = crate::heap::objs_index_of(post.old_objs@, a.0 as int);
            if k == i {
                assert(a == v);
            } else {
                assert(post.old_objs@[k] == pre.old_objs@[k]);
                assert(crate::heap::objs_index_of(pre.old_objs@, a.0 as int) == k);
            }
        }
    }
}

/// After marking index `i` of the large list, the frame holds and the
/// object at `v` is marked.
proof fn mark_one_post_large(pre: Heap, post: Heap, v: Address, i: int)
    requires
        pre.wf_marked(),
        v.0 != 0,
        mark_one_frame(pre, post),
        post.young_objs@ == pre.young_objs@,
        post.old_objs@ == pre.old_objs@,
        0 <= i < pre.large_objs@.len(),
        post.large_objs@.len() == pre.large_objs@.len(),
        forall|k: int| 0 <= k < pre.large_objs@.len() && k != i
            ==> #[trigger] post.large_objs@[k] == pre.large_objs@[k],
        post.large_objs@[i] == (Obj {
            header: Header { marked: true, ..pre.large_objs@[i].header },
            ..pre.large_objs@[i]
        }),
        pre.large_objs@[i].address == v,
    ensures
        post.wf_marked(),
        mark_frame(pre, post),
        marked_at(post, v),
        marked_at(pre, v) <==> pre.large_objs@[i].header.marked,
        forall|a: Address| marked_at(post, a) ==> marked_at(pre, a) || a == v,
{
    lemma_marks_grow_update(pre.large_objs@, post.large_objs@, i);
    assert(marks_grow(pre.young_objs@, post.young_objs@));
    assert(marks_grow(pre.old_objs@, post.old_objs@));
    lemma_mark_frame_wf(pre, post);
    lemma_marks_grow_layout(pre.large_objs@, post.large_objs@, pre.classes@, pre.vtables@);
    lemma_index_unique(pre.large_objs@, pre.classes@, v.0 as int);
    lemma_index_unique(post.large_objs@, pre.classes@, v.0 as int);
    assert(!objs_has_start(pre.young_objs@, v.0 as int)) by {
        if objs_has_start(pre.young_objs@, v.0 as int) {
            let k = choose|k: int| 0 <= k < pre.young_objs@.len()
                && (#[trigger] pre.young_objs@[k]).address.0 == v.0 as int;
            assert(pre.young_objs@[k].address.0 + pre.young_objs@[k].spec_size(pre.classes@)
                <= pre.young.top);
            assert(pre.large_objs@[i].address.0 >= pre.large.base);
        }
    }
    assert(!objs_has_start(pre.old_objs@, v.0 as int)) by {
        if objs_has_start(pre.old_objs@, v.0 as int) {
            let k = choose|k: int| 0 <= k < pre.old_objs@.len()
                && (#[trigger] pre.old_objs@[k]).address.0 == v.0 as int;
            assert(pre.old_objs@[k].address.0 + pre.old_objs@[k].spec_size(pre.classes@)
                <= pre.old.top);
            assert(pre.large_objs@[i].address.0 >= pre.large.base);
        }
    }
    assert(post.large_objs@[i].address.0 == v.0 as int);
    assert(post.spec_obj_at(v.0 as int) == post.large_objs@[i]);
    assert(pre.spec_obj_at(v.0 as int) == pre.large_objs@[i]);
    assert forall|a: Address| marked_at(post, a) implies marked_at(pre, a) || a == v by {
        if !objs_has_start(post.young_objs@, a.0 as int)
            && !objs_has_start(post.old_objs@, a.0 as int)
            && objs_has_start(post.large_objs@, a.0 as int) {
            lemma_index_unique(post.large_objs@, pre.classes@, a.0 as int);
            lemma_index_unique(pre.large_objs@, pre.classes@, a.0 as int);
            let k = crate::heap::objs_index_of(post.large_objs@, a.0 as int);
            if k == i {
                assert(a == v);
            } else {
                assert(post.large_objs@[k] == pre.large_objs@[k]);
                assert(crate::heap::objs_index_of(pre.large_objs@, a.0 as int) == k);
            }
        }
    }
}

/// Whether the object starting at `v` is marked, read from the header.
fn is_marked_at(heap: &Heap, v: Address) -> (r: bool)
    requires
        heap.wf_marked(),
        v.0 != 0,
        heap.has_obj_at(v.0 as int),
    ensures
        r == marked_at(*heap, v),
{
    proof {
        lemma_contiguous_disjoint(heap.young_objs@, heap.young.base as int,
            heap.young.top as int, heap.classes@);
        lemma_contiguous_disjoint(heap.old_objs@, heap.old.base as int, heap.old.top as int,
            heap.classes@);
    }
    if let Some(i) = find_index(&heap.young_objs, v) {
        proof {
            lemma_index_unique(heap.young_objs@, heap.classes@, v.0 as int);
        }
        heap.young_objs[i].header().is_marked_non_atomic()
    } else if let Some(i) = find_index(&heap.old_objs, v) {
        proof {
            lemma_index_unique(heap.old_objs@, heap.classes@, v.0 as int);
        }
        heap.old_objs[i].header().is_marked_non_atomic()
    } else if let Some(i) = find_index(&heap.large_objs, v) {
        proof {
            lemma_index_unique(heap.large_objs@, heap.classes@, v.0 as int);
        }
        heap.large_objs[i].header().is_marked_non_atomic()
    } else {
        proof {
            assert(false);
        }
        false
    }
}

/// The slot that witnessed a violation really is a marked object's slot, at
/// heap level: the scanned list element is the object `spec_obj_at` finds.
proof fn lemma_violation_witness(h: Heap, which: int, i: int, j: int, v: Address)
    requires
        h.wf_marked(),
        which == 0 || which == 1 || which == 2,
        ({
            let objs = if which == 0 {
                h.young_objs@
            } else if which == 1 {
                h.old_objs@
            } else {
                h.large_objs@
            };
            &&& 0 <= i < objs.len()
            &&& objs[i].header.marked
            &&& 0 <= j < objs[i].spec_num_ref_slots()
            &&& objs[i].spec_ref_slot(j) == v
        }),
    ensures
        exists|b: Address, j2: int| marked_at(h, b) && h.has_obj_at(b.0 as int)
            && 0 <= j2 < h.spec_obj_at(b.0 as int).spec_num_ref_slots()
            && #[trigger] h.spec_obj_at(b.0 as int).spec_ref_slot(j2) == v,
{
    lemma_contiguous_disjoint(h.young_objs@, h.young.base as int, h.young.top as int,
        h.classes@);
    lemma_contiguous_disjoint(h.old_objs@, h.old.base as int, h.old.top as int, h.classes@);
    if which == 0 {
        let b = h.young_objs@[i].address;
        lemma_index_unique(h.young_objs@, h.classes@, b.0 as int);
        assert(h.spec_obj_at(b.0 as int) == h.young_objs@[i]);
        assert(h.spec_obj_at(b.0 as int).spec_ref_slot(j) == v);
    } else if which == 1 {
        let b = h.old_objs@[i].address;
        lemma_index_unique(h.old_objs@, h.classes@, b.0 as int);
        assert(!objs_has_start(h.young_objs@, b.0 as int)) by {
            if objs_has_start(h.young_objs@, b.0 as int) {
                let w = choose|w: int| 0 <= w < h.young_objs@.len()
                    && (#[trigger] h.young_objs@[w]).address.0 == b.0 as int;
                assert(h.young_objs@[w].address.0
                    + h.young_objs@[w].spec_size(h.classes@) <= h.young.top);
                assert(h.old_objs@[i].address.0 >= h.old.base);
            }
        }
        assert(h.spec_obj_at(b.0 as int) == h.old_objs@[i]);
        assert(h.spec_obj_at(b.0 as int).spec_ref_slot(j) == v);
    } else {
        let b = h.large_objs@[i].address;
        lemma_index_unique(h.large_objs@, h.classes@, b.0 as int);
        assert(!objs_has_start(h.young_objs@, b.0 as int)) by {
            if objs_has_start(h.young_objs@, b.0 as int) {
                let w = choose|w: int| 0 <= w < h.young_objs@.len()
                    && (#[trigger] h.young_objs@[w]).address.0 == b.0 as int;
                assert(h.young_objs@[w].address.0
                    + h.young_objs@[w].spec_size(h.classes@) <= h.young.top);
                assert(h.large_objs@[i].address.0 >= h.large.base);
            }
        }
        assert(!objs_has_start(h.old_objs@, b.0 as int)) by {
            if objs_has_start(h.old_objs@, b.0 as int) {
                let w = choose|w: int| 0 <= w < h.old_objs@.len()
                    && (#[trigger] h.old_objs@[w]).address.0 == b.0 as int;
                assert(h.old_objs@[w].address.0
                    + h.old_objs@[w].spec_size(h.classes@) <= h.old.top);
                assert(h.large_objs@[i].address.0 >= h.large.base);
            }
        }
        assert(h.spec_obj_at(b.0 as int) == h.large_objs@[i]);
        assert(h.spec_obj_at(b.0 as int).spec_ref_slot(j) == v);
    }
}

/// Scans the reference slots of one young-generation object for a slot whose
/// target is not yet marked.
#[verifier::rlimit(100)]
#[verifier::spinoff_prover]
fn scan_slots_young(heap: &Heap, i: usize) -> (r: Option<Address>)
    requires
        heap.wf_marked(),
        i < heap.young_objs@.len(),
    ensures
        match r {
            Some(v) => v.0 != 0 && heap.has_obj_at(v.0 as int) && !marked_at(*heap, v)
                && exists|j: int| 0 <= j < heap.young_objs@[i as int].spec_num_ref_slots()
                    && #[trigger] heap.young_objs@[i as int].spec_ref_slot(j) == v,
            None => forall|j: int| 0 <= j < heap.young_objs@[i as int].spec_num_ref_slots()
                && (#[trigger] heap.young_objs@[i as int].spec_ref_slot(j)).0 != 0
                ==> marked_at(*heap, heap.young_objs@[i as int].spec_ref_slot(j)),
        },
{
    let m = heap.young_objs[i].num_ref_slots();
    let mut j: usize = 0;
    while j < m
        invariant
            heap.wf_marked(),
            i < heap.young_objs@.len(),
            j <= m,
            m == heap.young_objs@[i as int].spec_num_ref_slots(),
            forall|j2: int| 0 <= j2 < j
                && (#[trigger] heap.young_objs@[i as int].spec_ref_slot(j2)).0 != 0
                ==> marked_at(*heap, heap.young_objs@[i as int].spec_ref_slot(j2)),
        decreases m - j,
    {
        let v = heap.young_objs[i].get_ref_slot(j);
        if !v.is_null() {
            proof {
                assert(heap.slots_valid(heap.young_objs@));
                assert(heap.valid_ref(heap.young_objs@[i as int].spec_ref_slot(j as int)));
            }
            if !is_marked_at(heap, v) {
                return Some(v);
            }
        }
        j = j + 1;
    }
    None
}

/// Scans the young-generation list for a marked object holding a reference to an
/// unmarked object; `None` means the list's marks are closed.
#[verifier::rlimit(100)]
#[verifier::spinoff_prover]
fn find_violation_young(heap: &Heap) -> (r: Option<Address>)
    requires
        heap.wf_marked(),
    ensures
        match r {
            Some(v) => v.0 != 0 && heap.has_obj_at(v.0 as int) && !marked_at(*heap, v)
                && exists|b: Address, j: int| marked_at(*heap, b)
                    && heap.has_obj_at(b.0 as int)
                    && 0 <= j < heap.spec_obj_at(b.0 as int).spec_num_ref_slots()
                    && #[trigger] heap.spec_obj_at(b.0 as int).spec_ref_slot(j) == v,
            None => marks_closed_list(*heap, heap.young_objs@),
        },
{
    let n = heap.young_objs.len();
    let mut i: usize = 0;
    while i < n
        invariant
            heap.wf_marked(),
            i <= n,
            n == heap.young_objs@.len(),
            forall|i2: int, j: int| 0 <= i2 < i
                && (#[trigger] heap.young_objs@[i2]).header.marked
                && 0 <= j < heap.young_objs@[i2].spec_num_ref_slots()
                && (#[trigger] heap.young_objs@[i2].spec_ref_slot(j)).0 != 0
                ==> marked_at(*heap, heap.young_objs@[i2].spec_ref_slot(j)),
        decreases n - i,
    {
        if heap.young_objs[i].header().is_marked_non_atomic() {
            match scan_slots_young(heap, i) {
                Some(v) => {
                    proof {
                        let j = choose|j: int| 0 <= j
                            < heap.young_objs@[i as int].spec_num_ref_slots()
                            && #[trigger] heap.young_objs@[i as int].spec_ref_slot(j) == v;
                        lemma_violation_witness(*heap, 0int, i as int, j, v);
                    }
                    return Some(v);
                },
                None => {},
            }
        }
        i = i + 1;
    }
    None
}

/// Scans the reference slots of one old-generation object for a slot whose
/// target is not yet marked.
#[verifier::rlimit(100)]
#[verifier::spinoff_prover]
fn scan_slots_old(heap: &Heap, i: usize) -> (r: Option<Address>)
    requires
        heap.wf_marked(),
        i < heap.old_objs@.len(),
    ensures
        match r {
            Some(v) => v.0 != 0 && heap.has_obj_at(v.0 as int) && !marked_at(*heap, v)
                && exists|j: int| 0 <= j < heap.old_objs@[i as int].spec_num_ref_slots()
                    && #[trigger] heap.old_objs@[i as int].spec_ref_slot(j) == v,
            None => forall|j: int| 0 <= j < heap.old_objs@[i as int].spec_num_ref_slots()
                && (#[trigger] heap.old_objs@[i as int].spec_ref_slot(j)).0 != 0
                ==> marked_at(*heap, heap.old_objs@[i as int].spec_ref_slot(j)),
        },
{
    let m = heap.old_objs[i].num_ref_slots();
    let mut j: usize = 0;
    while j < m
        invariant
            heap.wf_marked(),
            i < heap.old_objs@.len(),
            j <= m,
            m == heap.old_objs@[i as int].spec_num_ref_slots(),
            forall|j2: int| 0 <= j2 < j
                && (#[trigger] heap.old_objs@[i as int].spec_ref_slot(j2)).0 != 0
                ==> marked_at(*heap, heap.old_objs@[i as int].spec_ref_slot(j2)),
        decreases m - j,
    {
        let v = heap.old_objs[i].get_ref_slot(j);
        if !v.is_null() {
            proof {
                assert(heap.slots_valid(heap.old_objs@));
                assert(heap.valid_ref(heap.old_objs@[i as int].spec_ref_slot(j as int)));
            }
            if !is_marked_at(heap, v) {
                return Some(v);
            }
        }
        j = j + 1;
    }
    None
}

/// Scans the old-generation list for a marked object holding a reference to an
/// unmarked object; `None` means the list's marks are closed.
#[verifier::rlimit(100)]
#[verifier::spinoff_prover]
fn find_violation_old(heap: &Heap) -> (r: Option<Address>)
    requires
        heap.wf_marked(),
    ensures
        match r {
            Some(v) => v.0 != 0 && heap.has_obj_at(v.0 as int) && !marked_at(*heap, v)
                && exists|b: Address, j: int| marked_at(*heap, b)
                    && heap.has_obj_at(b.0 as int)
                    && 0 <= j < heap.spec_obj_at(b.0 as int).spec_num_ref_slots()
                    && #[trigger] heap.spec_obj_at(b.0 as int).spec_ref_slot(j) == v,
            None => marks_closed_list(*heap, heap.old_objs@),
        },
{
    let n = heap.old_objs.len();
    let mut i: usize = 0;
    while i < n
        invariant
            heap.wf_marked(),
            i <= n,
            n == heap.old_objs@.len(),
            forall|i2: int, j: int| 0 <= i2 < i
                && (#[trigger] heap.old_objs@[i2]).header.marked
                && 0 <= j < heap.old_objs@[i2].spec_num_ref_slots()
                && (#[trigger] heap.old_objs@[i2].spec_ref_slot(j)).0 != 0
                ==> marked_at(*heap, heap.old_objs@[i2].spec_ref_slot(j)),
        decreases n - i,
    {
        if heap.old_objs[i].header().is_marked_non_atomic() {
            match scan_slots_old(heap, i) {
                Some(v) => {
                    proof {
                        let j = choose|j: int| 0 <= j
                            < heap.old_objs@[i as int].spec_num_ref_slots()
                            && #[trigger] heap.old_objs@[i as int].spec_ref_slot(j) == v;
                        lemma_violation_witness(*heap, 1int, i as int, j, v);
                    }
                    return Some(v);
                },
                None => {},
            }
        }
        i = i + 1;
    }
    None
}

/// Scans the reference slots of one large-space object for a slot whose
/// target is not yet marked.
#[verifier::rlimit(100)]
#[verifier::spinoff_prover]
fn scan_slots_large(heap: &Heap, i: usize) -> (r: Option<Address>)
    requires
        heap.wf_marked(),
        i < heap.large_objs@.len(),
    ensures
        match r {
            Some(v) => v.0 != 0 && heap.has_obj_at(v.0 as int) && !marked_at(*heap, v)
                && exists|j: int| 0 <= j < heap.large_objs@[i as int].spec_num_ref_slots()
                    && #[trigger] heap.large_objs@[i as int].spec_ref_slot(j) == v,
            None => forall|j: int| 0 <= j < heap.large_objs@[i as int].spec_num_ref_slots()
                && (#[trigger] heap.large_objs@[i as int].spec_ref_slot(j)).0 != 0
                ==> marked_at(*heap, heap.large_objs@[i as int].spec_ref_slot(j)),
        },
{
    let m = heap.large_objs[i].num_ref_slots();
    let mut j: usize = 0;
    while j < m
        invariant
            heap.wf_marked(),
            i < heap.large_objs@.len(),
            j <= m,
            m == heap.large_objs@[i as int].spec_num_ref_slots(),
            forall|j2: int| 0 <= j2 < j
                && (#[trigger] heap.large_objs@[i as int].spec_ref_slot(j2)).0 != 0
                ==> marked_at(*heap, heap.large_objs@[i as int].spec_ref_slot(j2)),
        decreases m - j,
    {
        let v = heap.large_objs[i].get_ref_slot(j);
        if !v.is_null() {
            proof {
                assert(heap.slots_valid(heap.large_objs@));
                assert(heap.valid_ref(heap.large_objs@[i as int].spec_ref_slot(j as int)));
            }
            if !is_marked_at(heap, v) {
                return Some(v);
            }
        }
        j = j + 1;
    }
    None
}

/// Scans the large-space list for a marked object holding a reference to an
/// unmarked object; `None` means the list's marks are closed.
#[verifier::rlimit(100)]
#[verifier::spinoff_prover]
fn find_violation_large(heap: &Heap) -> (r: Option<Address>)
    requires
        heap.wf_marked(),
    ensures
        match r {
            Some(v) => v.0 != 0 && heap.has_obj_at(v.0 as int) && !marked_at(*heap, v)
                && exists|b: Address, j: int| marked_at(*heap, b)
                    && heap.has_obj_at(b.0 as int)
                    && 0 <= j < heap.spec_obj_at(b.0 as int).spec_num_ref_slots()
                    && #[trigger] heap.spec_obj_at(b.0 as int).spec_ref_slot(j) == v,
            None => marks_closed_list(*heap, heap.large_objs@),
        },
{
    let n = heap.large_objs.len();
    let mut i: usize = 0;
    while i < n
        invariant
            heap.wf_marked(),
            i <= n,
            n == heap.large_objs@.len(),
            forall|i2: int, j: int| 0 <= i2 < i
                && (#[trigger] heap.large_objs@[i2]).header.marked
                && 0 <= j < heap.large_objs@[i2].spec_num_ref_slots()
                && (#[trigger] heap.large_objs@[i2].spec_ref_slot(j)).0 != 0
                ==> marked_at(*heap, heap.large_objs@[i2].spec_ref_slot(j)),
        decreases n - i,
    {
        if heap.large_objs[i].header().is_marked_non_atomic() {
            match scan_slots_large(heap, i) {
                Some(v) => {
                    proof {
                        let j = choose|j: int| 0 <= j
                            < heap.large_objs@[i as int].spec_num_ref_slots()
                            && #[trigger] heap.large_objs@[i as int].spec_ref_slot(j) == v;
                        lemma_violation_witness(*heap, 2int, i as int, j, v);
                    }
                    return Some(v);
                },
                None => {},
            }
        }
        i = i + 1;
    }
    None
}

/// Scans the root set for a root whose object is not yet marked./// Scans the root set for a root whose object is not yet marked.
fn find_root_violation(heap: &Heap, roots: &Vec<Address>) -> (r: Option<Address>)
    requires
        heap.wf_marked(),
        forall|k: int| 0 <= k < roots@.len() ==> heap.valid_ref(#[trigger] roots@[k]),
    ensures
        match r {
            Some(v) => v.0 != 0 && heap.has_obj_at(v.0 as int) && !marked_at(*heap, v)
                && roots@.contains(v),
            None => forall|k: int| 0 <= k < roots@.len() && (#[trigger] roots@[k]).0 != 0
                ==> marked_at(*heap, roots@[k]),
        },
{
    let n = roots.len();
    let mut k: usize = 0;
    while k < n
        invariant
            heap.wf_marked(),
            k <= n,
            n == roots@.len(),
            forall|j: int| 0 <= j < roots@.len() ==> heap.valid_ref(#[trigger] roots@[j]),
            forall|j: int| 0 <= j < k && (#[trigger] roots@[j]).0 != 0
                ==> marked_at(*heap, roots@[j]),
        decreases n - k,
    {
        let v = roots[k];
        if !v.is_null() {
            if !is_marked_at(heap, v) {
                proof {
                    assert(roots@[k as int] == v);
                }
                return Some(v);
            }
        }
        k = k + 1;
    }
    None
}

/// Finds any pending mark: an unmarked root target, or a marked object
/// holding a reference to an unmarked object. `None` means every non-null
/// root's object is marked and the marks are closed over the whole heap.
fn find_violation(heap: &Heap, roots: &Vec<Address>) -> (r: Option<Address>)
    requires
        heap.wf_marked(),
        forall|k: int| 0 <= k < roots@.len() ==> heap.valid_ref(#[trigger] roots@[k]),
    ensures
        match r {
            Some(v) => v.0 != 0 && heap.has_obj_at(v.0 as int) && !marked_at(*heap, v)
                && (roots@.contains(v) || exists|b: Address, j: int| marked_at(*heap, b)
                    && heap.has_obj_at(b.0 as int)
                    && 0 <= j < heap.spec_obj_at(b.0 as int).spec_num_ref_slots()
                    && #[trigger] heap.spec_obj_at(b.0 as int).spec_ref_slot(j) == v),
            None => marks_closed(*heap)
                && forall|k: int| 0 <= k < roots@.len() && (#[trigger] roots@[k]).0 != 0
                    ==> marked_at(*heap, roots@[k]),
        },
{
    if let Some(v) = find_root_violation(heap, roots) {
        Some(v)
    } else if let Some(v) = find_violation_young(heap) {
        Some(v)
    } else if let Some(v) = find_violation_old(heap) {
        Some(v)
    } else if let Some(v) = find_violation_large(heap) {
        Some(v)
    } else {
        None
    }
}

/// MarkLive: traces the root set — marks every root's object and closes the
/// marks under references, so the objects the trace reaches carry the mark
/// bit. Nothing else in the heap changes.
#[verifier::rlimit(100)]
#[verifier::spinoff_prover]
pub fn mark_live(heap: &mut Heap, roots: &Vec<Address>)
    requires
        old(heap).wf(),
        forall|k: int| 0 <= k < roots@.len() ==> old(heap).valid_ref(#[trigger] roots@[k]),
    ensures
        final(heap).wf_marked(),
        mark_frame(*old(heap), *final(heap)),
        forall|k: int| 0 <= k < roots@.len() && (#[trigger] roots@[k]).0 != 0
            ==> marked_at(*final(heap), roots@[k]),
        marks_closed(*final(heap)),
        forall|a: Address| marked_at(*final(heap), a)
            <==> reachable(*final(heap), roots@, a),
{
    let ghost entry = *old(heap);
    proof {
        lemma_unmarked_heap(entry);
    }
    loop
        invariant
            heap.wf_marked(),
            entry == *old(heap),
            mark_frame(entry, *heap),
            forall|k: int| 0 <= k < roots@.len() ==> heap.valid_ref(#[trigger] roots@[k]),
            forall|a: Address| marked_at(*heap, a) ==> reachable(*heap, roots@, a),
        decreases unmarked_total(*heap),
    {
        let v = match find_violation(heap, roots) {
            None => {
                proof {
                    reveal_with_fuel(reachable_n, 1);
                    assert forall|a: Address| reachable(*heap, roots@, a)
                        implies marked_at(*heap, a) by {
                        let n = choose|n: nat| reachable_n(*heap, roots@, a, n);
                        lemma_reachable_is_marked(*heap, roots@, a, n);
                    }
                }
                return;
            },
            Some(v) => v,
        };
        let ghost before = *heap;
        let won = mark_one_target(heap, v);
        proof {
            lemma_mark_frame_trans(entry, before, *heap);
            lemma_mark_frame_wf(before, *heap);
            reveal_with_fuel(reachable_n, 2);
            assert forall|a: Address| marked_at(*heap, a)
                implies reachable(*heap, roots@, a) by {
                if marked_at(before, a) {
                    let n = choose|n: nat| reachable_n(before, roots@, a, n);
                    lemma_reachable_n_frame(before, *heap, roots@, a, n);
                    assert(reachable_n(*heap, roots@, a, n));
                } else {
                    assert(a == v);
                    if roots@.contains(v) {
                        assert(reachable_n(*heap, roots@, v, 0));
                    } else {
                        let (b, j) = choose|b: Address, j: int| marked_at(before, b)
                            && before.has_obj_at(b.0 as int)
                            && 0 <= j < before.spec_obj_at(b.0 as int).spec_num_ref_slots()
                            && #[trigger] before.spec_obj_at(b.0 as int).spec_ref_slot(j)
                                == v;
                        let n = choose|n: nat| reachable_n(before, roots@, b, n);
                        lemma_reachable_n_frame(before, *heap, roots@, b, n);
                        lemma_obj_at_stable(before, *heap, b.0 as int);
                        assert(heap.spec_obj_at(b.0 as int).spec_ref_slot(j) == v);
                        assert(reachable_n(*heap, roots@, v, n + 1));
                    }
                }
            }
        }
    }
}

/// Payloads with the same shape and contents (the vector views are equal
/// even where the vectors are distinct values).
pub open spec fn body_like(a: ObjBody, b: ObjBody) -> bool {
    match (a, b) {
        (ObjBody::Fixed { fields: f1 }, ObjBody::Fixed { fields: f2 }) => f1@ == f2@,
        (ObjBody::RefArray { elements: e1 }, ObjBody::RefArray { elements: e2 }) => e1@ == e2@,
        (ObjBody::PrimArray { length: l1 }, ObjBody::PrimArray { length: l2 }) => l1 == l2,
        (ObjBody::Str { length: l1 }, ObjBody::Str { length: l2 }) => l1 == l2,
        _ => false,
    }
}

/// Size is preserved by evacuation and compaction: the copy the collector
/// places for a survivor has exactly the source object's byte size, for any
/// class table, and keeps its class.
pub proof fn lemma_moved_copy_preserves_size(
    c: Obj,
    o: Obj,
    addr: Address,
    vtbl: Address,
    classes: Seq<ClassData>,
)
    requires
        is_moved_copy(c, o, addr, vtbl),
    ensures
        c.spec_size(classes) == o.spec_size(classes),
        c.cls == o.cls,
        c.spec_num_ref_slots() == o.spec_num_ref_slots(),
{
    lemma_body_like(c, o, classes);
}

/// Alike payloads agree on size, slot count and slot values.
pub proof fn lemma_body_like(a: Obj, b: Obj, classes: Seq<ClassData>)
    requires
        body_like(a.body, b.body),
        a.cls == b.cls,
    ensures
        a.spec_size(classes) == b.spec_size(classes),
        a.spec_num_ref_slots() == b.spec_num_ref_slots(),
        forall|j: int| 0 <= j < a.spec_num_ref_slots()
            ==> a.spec_ref_slot(j) == b.spec_ref_slot(j),
{
}

/// An exact copy of an object payload.
fn copy_body(b: &ObjBody) -> (r: ObjBody)
    ensures
        body_like(r, *b),
{
    match b {
        ObjBody::Fixed { fields } => {
            let mut out: Vec<Address> = Vec::new();
            let n = fields.len();
            let mut i: usize = 0;
            while i < n
                invariant
                    i <= n,
                    n == fields@.len(),
                    out@ == fields@.take(i as int),
                decreases n - i,
            {
                out.push(fields[i]);
                i = i + 1;
            }
            proof {
                assert(out@ =~= fields@);
            }
            ObjBody::Fixed { fields: out }
        },
        ObjBody::RefArray { elements } => {
            let mut out: Vec<Address> = Vec::new();
            let n = elements.len();
            let mut i: usize = 0;
            while i < n
                invariant
                    i <= n,
                    n == elements@.len(),
                    out@ == elements@.take(i as int),
                decreases n - i,
            {
                out.push(elements[i]);
                i = i + 1;
            }
            proof {
                assert(out@ =~= elements@);
            }
            ObjBody::RefArray { elements: out }
        },
        ObjBody::PrimArray { length } => ObjBody::PrimArray { length: *length },
        ObjBody::Str { length } => ObjBody::Str { length: *length },
    }
}

/// `c` is the copy of survivor `o` placed at `addr`: same class and
/// payload, fresh clean header naming the class's vtable.
pub open spec fn is_moved_copy(c: Obj, o: Obj, addr: Address, vtbl: Address) -> bool {
    &&& c.address == addr
    &&& c.header == (Header {
        vtable: crate::object::ClassWord::Pointer(vtbl),
        fwdptr: Address(0),
        marked: false,
    })
    &&& c.cls == o.cls
    &&& body_like(c.body, o.body)
}

/// Total byte size of the marked objects of `objs`.
pub open spec fn sum_marked(objs: Seq<Obj>, classes: Seq<ClassData>) -> int
    decreases objs.len(),
{
    if objs.len() == 0 {
        0
    } else {
        sum_marked(objs.drop_last(), classes) + if objs.last().header.marked {
            objs.last().spec_size(classes)
        } else {
            0
        }
    }
}

/// Partial sums of marked sizes over a prefix.
pub open spec fn sum_marked_prefix(objs: Seq<Obj>, classes: Seq<ClassData>, upto: int) -> int {
    sum_marked(objs.take(upto), classes)
}

/// Stepping the prefix by one object adds its size when marked.
pub proof fn lemma_sum_marked_step(objs: Seq<Obj>, classes: Seq<ClassData>, i: int)
    requires
        0 <= i < objs.len(),
    ensures
        sum_marked_prefix(objs, classes, i + 1) == sum_marked_prefix(objs, classes, i)
            + if objs[i].header.marked { objs[i].spec_size(classes) } else { 0 },
{
    assert(objs.take(i + 1).drop_last() =~= objs.take(i));
    assert(objs.take(i + 1).last() == objs[i]);
}

/// The whole sequence is its own full prefix.
pub proof fn lemma_sum_marked_full(objs: Seq<Obj>, classes: Seq<ClassData>)
    ensures
        sum_marked_prefix(objs, classes, objs.len() as int) == sum_marked(objs, classes),
{
    assert(objs.take(objs.len() as int) =~= objs);
}

/// Marked sizes are non-negative sums.
pub proof fn lemma_sum_marked_nonneg(objs: Seq<Obj>, classes: Seq<ClassData>)
    requires
        all_wf(objs, classes),
    ensures
        sum_marked(objs, classes) >= 0,
    decreases objs.len(),
{
    if objs.len() > 0 {
        assert(all_wf(objs.drop_last(), classes)) by {
            assert(forall|i: int| 0 <= i < objs.drop_last().len()
                ==> #[trigger] objs.drop_last()[i] == objs[i]);
        }
        lemma_sum_marked_nonneg(objs.drop_last(), classes);
        if objs.last().header.marked {
            crate::heap::lemma_obj_size_pos(objs.last(), classes);
        }
    }
}

/// Objects' byte sizes are pointer-aligned.
pub proof fn lemma_obj_size_aligned(o: Obj, classes: Seq<ClassData>)
    requires
        o.wf(classes),
    ensures
        o.spec_size(classes) % 8 == 0,
{
    match o.body {
        ObjBody::Fixed { .. } => {},
        ObjBody::RefArray { elements } => {
            crate::mem::lemma_align_up(24 + elements@.len() * 8 as int, 8);
        },
        ObjBody::PrimArray { length } => {
            match classes[o.cls.0 as int].size {
                crate::class::ClassSize::Array(e) => {
                    crate::mem::lemma_align_up(24 + length as int * e as int, 8);
                },
                _ => {},
            }
        },
        ObjBody::Str { length } => {
            crate::mem::lemma_align_up(24 + length as int, 8);
        },
    }
}

/// Copies the marked objects of `src` to consecutive addresses from `dest0`
/// on, appending the copies to `out` and the (old address, new address)
/// pairs to `reloc`. Fails exactly by running past `limit`.
#[verifier::rlimit(100)]
#[verifier::spinoff_prover]
fn evacuate_list(
    src: &Vec<Obj>,
    classes: &Vec<ClassData>,
    vtables: &Vec<Address>,
    dest0: usize,
    limit: usize,
    base: Ghost<int>,
    out: &mut Vec<Obj>,
    reloc: &mut Vec<(Address, Address)>,
) -> (r: Option<usize>)
    requires
        all_wf(src@, classes@),
        classes@.len() == vtables@.len(),
        forall|k: int| 0 <= k < vtables@.len()
            ==> (#[trigger] vtables@[k]).0 != 0 && vtables@[k].0 % 8 == 0,
        headers_plain(src@, vtables@),
        0 < base@ <= dest0 <= limit,
        dest0 % 8 == 0,
        limit <= usize::MAX,
        contiguous(old(out)@, base@, dest0 as int, classes@),
        objs_within(old(out)@, base@, dest0 as int, classes@),
        all_wf(old(out)@, classes@),
        crate::heap::clean_headers(old(out)@, vtables@),
    ensures
        final(out)@.len() >= old(out)@.len(),
        forall|i: int| 0 <= i < old(out)@.len() ==> #[trigger] final(out)@[i] == old(out)@[i],
        final(reloc)@.len() >= old(reloc)@.len(),
        forall|k: int| 0 <= k < old(reloc)@.len()
            ==> #[trigger] final(reloc)@[k] == old(reloc)@[k],
        final(reloc)@.len() - old(reloc)@.len() == final(out)@.len() - old(out)@.len(),
        match r {
            Some(dest1) => {
                &&& dest1 == dest0 + sum_marked(src@, classes@)
                &&& dest1 <= limit
                &&& dest1 % 8 == 0
                &&& contiguous(final(out)@, base@, dest1 as int, classes@)
                &&& objs_within(final(out)@, base@, dest1 as int, classes@)
                &&& all_wf(final(out)@, classes@)
                &&& crate::heap::clean_headers(final(out)@, vtables@)
                &&& forall|d: int| 0 <= d < final(out)@.len() - old(out)@.len()
                    ==> exists|i: int| 0 <= i < src@.len()
                        && (#[trigger] src@[i]).header.marked
                        && is_moved_copy(#[trigger] final(out)@[old(out)@.len() + d], src@[i],
                            final(out)@[old(out)@.len() + d].address,
                            vtables@[src@[i].cls.0 as int])
                        && final(reloc)@[old(reloc)@.len() + d]
                            == (src@[i].address, final(out)@[old(out)@.len() + d].address)
                &&& forall|i: int| 0 <= i < src@.len() && (#[trigger] src@[i]).header.marked
                    ==> exists|k: int| old(reloc)@.len() <= k < final(reloc)@.len()
                        && (#[trigger] final(reloc)@[k]).0 == src@[i].address
            },
            None => dest0 + sum_marked(src@, classes@) > limit,
        },
{
    let n = src.len();
    let mut i: usize = 0;
    let mut dest: usize = dest0;
    let ghost out0 = out@;
    let ghost reloc0 = reloc@;
    while i < n
        invariant
            all_wf(src@, classes@),
            classes@.len() == vtables@.len(),
            forall|k: int| 0 <= k < vtables@.len()
                ==> (#[trigger] vtables@[k]).0 != 0 && vtables@[k].0 % 8 == 0,
            i <= n,
            n == src@.len(),
            out0 == old(out)@,
            reloc0 == old(reloc)@,
            0 < base@ <= dest0 <= dest,
            dest % 8 == 0,
            dest <= limit,
            limit <= usize::MAX,
            dest == dest0 + sum_marked_prefix(src@, classes@, i as int),
            contiguous(out@, base@, dest as int, classes@),
            objs_within(out@, base@, dest as int, classes@),
            all_wf(out@, classes@),
            crate::heap::clean_headers(out@, vtables@),
            out@.len() >= out0.len(),
            forall|k: int| 0 <= k < out0.len() ==> #[trigger] out@[k] == out0[k],
            reloc@.len() >= reloc0.len(),
            forall|k: int| 0 <= k < reloc0.len() ==> #[trigger] reloc@[k] == reloc0[k],
            reloc@.len() - reloc0.len() == out@.len() - out0.len(),
            forall|d: int| 0 <= d < out@.len() - out0.len()
                ==> exists|i2: int| 0 <= i2 < src@.len()
                    && (#[trigger] src@[i2]).header.marked
                    && is_moved_copy(#[trigger] out@[out0.len() + d], src@[i2],
                        out@[out0.len() + d].address, vtables@[src@[i2].cls.0 as int])
                    && reloc@[reloc0.len() + d]
                        == (src@[i2].address, out@[out0.len() + d].address),
            forall|i2: int| 0 <= i2 < i && (#[trigger] src@[i2]).header.marked
                ==> exists|k: int| reloc0.len() <= k < reloc@.len()
                    && (#[trigger] reloc@[k]).0 == src@[i2].address,
        decreases n - i,
    {
        proof {
            lemma_sum_marked_step(src@, classes@, i as int);
        }
        if src[i].header().is_marked_non_atomic() {
            let size = src[i].size(classes);
            proof {
                crate::heap::lemma_obj_size_pos(src@[i as int], classes@);
                lemma_obj_size_aligned(src@[i as int], classes@);
            }
            if size > limit - dest {
                proof {
                    lemma_sum_marked_tail_nonneg(src@, classes@, i as int);
                }
                return None;
            }
            let vtbl = vtables[src[i].cls.0];
            let body = copy_body(&src[i].body);
            let copy = Obj {
                address: Address(dest),
                header: Header {
                    vtable: crate::object::ClassWord::Pointer(vtbl),
                    fwdptr: Address(0),
                    marked: false,
                },
                cls: src[i].cls,
                body,
            };
            proof {
                lemma_body_like(copy, src@[i as int], classes@);
                assert(copy.wf(classes@)) by {
                    assert(src@[i as int].wf(classes@));
                }
                crate::heap::lemma_layout_push(out@, copy, base@, dest as int, classes@);
                crate::heap::lemma_clean_push(out@, copy, vtables@);
            }
            let ghost out_prev = out@;
            let ghost reloc_prev = reloc@;
            out.push(copy);
            reloc.push((src[i].address, Address(dest)));
            dest = dest + size;
            proof {
                assert forall|d: int| 0 <= d < out@.len() - out0.len()
                    implies exists|i2: int| 0 <= i2 < src@.len()
                        && (#[trigger] src@[i2]).header.marked
                        && is_moved_copy(#[trigger] out@[out0.len() + d], src@[i2],
                            out@[out0.len() + d].address, vtables@[src@[i2].cls.0 as int])
                        && reloc@[reloc0.len() + d]
                            == (src@[i2].address, out@[out0.len() + d].address) by {
                    if d < out_prev.len() - out0.len() {
                        let i2 = choose|i2: int| 0 <= i2 < src@.len()
                            && (#[trigger] src@[i2]).header.marked
                            && is_moved_copy(out_prev[out0.len() + d], src@[i2],
                                out_prev[out0.len() + d].address,
                                vtables@[src@[i2].cls.0 as int])
                            && reloc_prev[reloc0.len() + d]
                                == (src@[i2].address, out_prev[out0.len() + d].address);
                        assert(out@[out0.len() + d] == out_prev[out0.len() + d]);
                        assert(reloc@[reloc0.len() + d] == reloc_prev[reloc0.len() + d]);
                    } else {
                        assert(out@[out0.len() + d] == copy);
                        assert((i as int) < src@.len() && src@[i as int].header.marked
                            && is_moved_copy(copy, src@[i as int], copy.address,
                                vtables@[src@[i as int].cls.0 as int]));
                    }
                }
                assert forall|i2: int| 0 <= i2 <= i && (#[trigger] src@[i2]).header.marked
                    implies exists|k: int| reloc0.len() <= k < reloc@.len()
                        && (#[trigger] reloc@[k]).0 == src@[i2].address by {
                    if i2 < i {
                        let k = choose|k: int| reloc0.len() <= k < reloc_prev.len()
                            && (#[trigger] reloc_prev[k]).0 == src@[i2].address;
                        assert(reloc@[k] == reloc_prev[k]);
                    } else {
                        assert(reloc@[reloc@.len() - 1].0 == src@[i2].address);
                    }
                }
            }
        }
        i = i + 1;
    }
    proof {
        lemma_sum_marked_full(src@, classes@);
    }
    Some(dest)
}

/// The remaining marked sizes only add to a prefix sum.
pub proof fn lemma_sum_marked_tail_nonneg(objs: Seq<Obj>, classes: Seq<ClassData>, i: int)
    requires
        all_wf(objs, classes),
        0 <= i < objs.len(),
        objs[i].header.marked,
    ensures
        sum_marked(objs, classes) >= sum_marked_prefix(objs, classes, i)
            + objs[i].spec_size(classes),
    decreases objs.len(),
{
    lemma_sum_marked_step(objs, classes, i);
    lemma_sum_marked_prefix_monotone(objs, classes, i + 1, objs.len() as int);
    lemma_sum_marked_full(objs, classes);
}

/// Prefix sums of marked sizes grow with the prefix.
pub proof fn lemma_sum_marked_prefix_monotone(
    objs: Seq<Obj>,
    classes: Seq<ClassData>,
    a: int,
    b: int,
)
    requires
        all_wf(objs, classes),
        0 <= a <= b <= objs.len(),
    ensures
        sum_marked_prefix(objs, classes, a) <= sum_marked_prefix(objs, classes, b),
    decreases b - a,
{
    if a < b {
        lemma_sum_marked_step(objs, classes, b - 1);
        lemma_sum_marked_prefix_monotone(objs, classes, a, b - 1);
        if objs[b - 1].header.marked {
            crate::heap::lemma_obj_size_pos(objs[b - 1], classes);
        }
    }
}

/// Keeps the cleaned copies of the marked objects of the large space; the
/// unmarked ones are reclaimed. Large objects never move.
#[verifier::rlimit(100)]
#[verifier::spinoff_prover]
fn sweep_large(src: &Vec<Obj>, classes: &Vec<ClassData>, vtables: &Vec<Address>)
    -> (out: Vec<Obj>)
    requires
        all_wf(src@, classes@),
        objs_disjoint(src@, classes@),
        classes@.len() == vtables@.len(),
        forall|k: int| 0 <= k < vtables@.len()
            ==> (#[trigger] vtables@[k]).0 != 0 && vtables@[k].0 % 8 == 0,
    ensures
        all_wf(out@, classes@),
        objs_disjoint(out@, classes@),
        crate::heap::clean_headers(out@, vtables@),
        sweep_facts(src@, vtables@, out@),
        forall|lo: int, hi: int| objs_within(src@, lo, hi, classes@)
            ==> objs_within(out@, lo, hi, classes@),
{
    proof {
        reveal(crate::collector::sweep_facts);
    }
    let mut out: Vec<Obj> = Vec::new();
    let n = src.len();
    let mut i: usize = 0;
    while i < n
        invariant
            all_wf(src@, classes@),
            objs_disjoint(src@, classes@),
            classes@.len() == vtables@.len(),
            forall|k: int| 0 <= k < vtables@.len()
                ==> (#[trigger] vtables@[k]).0 != 0 && vtables@[k].0 % 8 == 0,
            i <= n,
            n == src@.len(),
            all_wf(out@, classes@),
            crate::heap::clean_headers(out@, vtables@),
            forall|k: int| 0 <= k < out@.len() ==> exists|j: int| 0 <= j < i
                && (#[trigger] src@[j]).header.marked
                && is_moved_copy(#[trigger] out@[k], src@[j], src@[j].address,
                    vtables@[src@[j].cls.0 as int]),
            forall|j: int| 0 <= j < i && (#[trigger] src@[j]).header.marked
                ==> objs_has_start(out@, src@[j].address.0 as int),
            out@.len() > 0 ==> exists|j: int| 0 <= j < i && (#[trigger] src@[j]).header.marked
                && out@.last().address == src@[j].address
                && out@.last().spec_size(classes@) == src@[j].spec_size(classes@),
            objs_disjoint(out@, classes@),
        decreases n - i,
    {
        if src[i].header().is_marked_non_atomic() {
            let vtbl = vtables[src[i].cls.0];
            let body = copy_body(&src[i].body);
            let copy = Obj {
                address: src[i].address,
                header: Header {
                    vtable: crate::object::ClassWord::Pointer(vtbl),
                    fwdptr: Address(0),
                    marked: false,
                },
                cls: src[i].cls,
                body,
            };
            proof {
                lemma_body_like(copy, src@[i as int], classes@);
                assert(copy.wf(classes@)) by {
                    assert(src@[i as int].wf(classes@));
                }
            }
            let ghost prev = out@;
            out.push(copy);
            proof {
                assert forall|k: int| 0 <= k < out@.len() implies exists|j: int| 0 <= j <= i
                    && (#[trigger] src@[j]).header.marked
                    && is_moved_copy(#[trigger] out@[k], src@[j], src@[j].address,
                        vtables@[src@[j].cls.0 as int]) by {
                    if k < prev.len() {
                        assert(out@[k] == prev[k]);
                        let j = choose|j: int| 0 <= j < i && (#[trigger] src@[j]).header.marked
                            && is_moved_copy(prev[k], src@[j], src@[j].address,
                                vtables@[src@[j].cls.0 as int]);
                        assert(0 <= j <= i && src@[j].header.marked
                            && is_moved_copy(out@[k], src@[j], src@[j].address,
                                vtables@[src@[j].cls.0 as int]));
                    } else {
                        assert(out@[k] == copy);
                        assert(is_moved_copy(copy, src@[i as int], src@[i as int].address,
                            vtables@[src@[i as int].cls.0 as int]));
                    }
                }
                assert forall|j: int| 0 <= j <= i && (#[trigger] src@[j]).header.marked
                    implies objs_has_start(out@, src@[j].address.0 as int) by {
                    if j < i {
                        let k = choose|k: int| 0 <= k < prev.len()
                            && (#[trigger] prev[k]).address.0 == src@[j].address.0 as int;
                        assert(out@[k].address.0 == src@[j].address.0 as int);
                    } else {
                        assert(out@[out@.len() - 1].address.0 == src@[j].address.0 as int);
                    }
                }
                assert forall|k: int| 0 <= k < out@.len() - 1
                    implies (#[trigger] out@[k]).address.0 + out@[k].spec_size(classes@)
                        <= out@[k + 1].address.0 by {
                    if k < prev.len() - 1 {
                        assert(out@[k] == prev[k]);
                        assert(out@[k + 1] == prev[k + 1]);
                    } else {
                        assert(out@[k] == prev.last());
                        let j = choose|j: int| 0 <= j < i && (#[trigger] src@[j]).header.marked
                            && prev.last().address == src@[j].address
                            && prev.last().spec_size(classes@) == src@[j].spec_size(classes@);
                        crate::heap::lemma_disjoint_ordered(src@, classes@, j, i as int);
                    }
                }
            }
        }
        i = i + 1;
    }
    proof {
        assert forall|lo: int, hi: int| objs_within(src@, lo, hi, classes@)
            implies objs_within(out@, lo, hi, classes@) by {
            assert forall|k: int| 0 <= k < out@.len()
                implies lo <= (#[trigger] out@[k]).address.0
                    && out@[k].address.0 + out@[k].spec_size(classes@) <= hi by {
                let j = choose|j: int| 0 <= j < src@.len()
                    && (#[trigger] src@[j]).header.marked
                    && is_moved_copy(out@[k], src@[j], src@[j].address,
                        vtables@[src@[j].cls.0 as int]);
                lemma_body_like(out@[k], src@[j], classes@);
                assert(lo <= src@[j].address.0
                    && src@[j].address.0 + src@[j].spec_size(classes@) <= hi);
            }
        }
    }
    out
}

/// Follows the relocation table: the new address of `v`, or `v` itself when
/// nothing relocated it.
fn resolve(reloc: &Vec<(Address, Address)>, v: Address) -> (r: Address)
    ensures
        ({
            ||| exists|k: int| 0 <= k < reloc@.len() && (#[trigger] reloc@[k]) == (v, r)
            ||| (r == v && forall|k: int| 0 <= k < reloc@.len()
                ==> (#[trigger] reloc@[k]).0 != v)
        }),
{
    let n = reloc.len();
    let mut k: usize = 0;
    while k < n
        invariant
            k <= n,
            n == reloc@.len(),
            forall|k2: int| 0 <= k2 < k ==> (#[trigger] reloc@[k2]).0 != v,
        decreases n - k,
    {
        let (from, to) = reloc[k];
        if from == v {
            return to;
        }
        k = k + 1;
    }
    v
}

/// A repaired slot value: either relocated by the table or left alone.
pub open spec fn resolved_to(reloc: Seq<(Address, Address)>, v: Address, r: Address) -> bool {
    ||| exists|k: int| 0 <= k < reloc.len() && (#[trigger] reloc[k]) == (v, r)
    ||| (r == v && forall|k: int| 0 <= k < reloc.len() ==> (#[trigger] reloc[k]).0 != v)
}

/// Rewrites every reference slot of every object through the relocation
/// table; everything else about each object is unchanged.
#[verifier::rlimit(100)]
fn repair_objs(objs: &mut Vec<Obj>, reloc: &Vec<(Address, Address)>)
    ensures
        final(objs)@.len() == old(objs)@.len(),
        forall|i: int| 0 <= i < old(objs)@.len() ==> {
            &&& (#[trigger] final(objs)@[i]).address == old(objs)@[i].address
            &&& final(objs)@[i].cls == old(objs)@[i].cls
            &&& final(objs)@[i].header == old(objs)@[i].header
            &&& final(objs)@[i].spec_num_ref_slots() == old(objs)@[i].spec_num_ref_slots()
            &&& ((final(objs)@[i].body is Fixed) == (old(objs)@[i].body is Fixed))
            &&& ((final(objs)@[i].body is RefArray) == (old(objs)@[i].body is RefArray))
            &&& ((final(objs)@[i].body is PrimArray) == (old(objs)@[i].body is PrimArray))
            &&& ((final(objs)@[i].body is Str) == (old(objs)@[i].body is Str))
            &&& forall|c: Seq<ClassData>| (#[trigger] final(objs)@[i].spec_size(c))
                == old(objs)@[i].spec_size(c)
        },
        forall|i: int, j: int| 0 <= i < old(objs)@.len()
            && 0 <= j < old(objs)@[i].spec_num_ref_slots()
            ==> ((#[trigger] final(objs)@[i].spec_ref_slot(j)).0 == 0
                    && old(objs)@[i].spec_ref_slot(j).0 == 0)
                || (old(objs)@[i].spec_ref_slot(j).0 != 0
                    && resolved_to(reloc@, old(objs)@[i].spec_ref_slot(j),
                        final(objs)@[i].spec_ref_slot(j))),
{
    let n = objs.len();
    let mut i: usize = 0;
    while i < n
        invariant
            i <= n,
            n == objs@.len(),
            objs@.len() == old(objs)@.len(),
            forall|i2: int| i <= i2 < n ==> #[trigger] objs@[i2] == old(objs)@[i2],
            forall|i2: int| 0 <= i2 < i ==> {
                &&& (#[trigger] objs@[i2]).address == old(objs)@[i2].address
                &&& objs@[i2].cls == old(objs)@[i2].cls
                &&& objs@[i2].header == old(objs)@[i2].header
                &&& objs@[i2].spec_num_ref_slots() == old(objs)@[i2].spec_num_ref_slots()
                &&& ((objs@[i2].body is Fixed) == (old(objs)@[i2].body is Fixed))
                &&& ((objs@[i2].body is RefArray) == (old(objs)@[i2].body is RefArray))
                &&& ((objs@[i2].body is PrimArray) == (old(objs)@[i2].body is PrimArray))
                &&& ((objs@[i2].body is Str) == (old(objs)@[i2].body is Str))
                &&& forall|c: Seq<ClassData>| (#[trigger] objs@[i2].spec_size(c))
                    == old(objs)@[i2].spec_size(c)
            },
            forall|i2: int, j: int| 0 <= i2 < i
                && 0 <= j < old(objs)@[i2].spec_num_ref_slots()
                ==> ((#[trigger] objs@[i2].spec_ref_slot(j)).0 == 0
                        && old(objs)@[i2].spec_ref_slot(j).0 == 0)
                    || (old(objs)@[i2].spec_ref_slot(j).0 != 0
                        && resolved_to(reloc@, old(objs)@[i2].spec_ref_slot(j),
                            objs@[i2].spec_ref_slot(j))),
        decreases n - i,
    {
        let m = objs[i].num_ref_slots();
        let mut j: usize = 0;
        while j < m
            invariant
                i < n,
                n == objs@.len(),
                objs@.len() == old(objs)@.len(),
                j <= m,
                m == objs@[i as int].spec_num_ref_slots(),
                forall|i2: int| i < i2 < n ==> #[trigger] objs@[i2] == old(objs)@[i2],
                (#[trigger] objs@[i as int]).address == old(objs)@[i as int].address,
                objs@[i as int].cls == old(objs)@[i as int].cls,
                objs@[i as int].header == old(objs)@[i as int].header,
                objs@[i as int].spec_num_ref_slots()
                    == old(objs)@[i as int].spec_num_ref_slots(),
                ((objs@[i as int].body is Fixed) == (old(objs)@[i as int].body is Fixed)),
                ((objs@[i as int].body is RefArray)
                    == (old(objs)@[i as int].body is RefArray)),
                ((objs@[i as int].body is PrimArray)
                    == (old(objs)@[i as int].body is PrimArray)),
                ((objs@[i as int].body is Str) == (old(objs)@[i as int].body is Str)),
                forall|c: Seq<ClassData>| (#[trigger] objs@[i as int].spec_size(c))
                    == old(objs)@[i as int].spec_size(c),
                forall|j2: int| j <= j2 < m ==> #[trigger] objs@[i as int].spec_ref_slot(j2)
                    == old(objs)@[i as int].spec_ref_slot(j2),
                forall|j2: int| 0 <= j2 < j
                    ==> ((#[trigger] objs@[i as int].spec_ref_slot(j2)).0 == 0
                            && old(objs)@[i as int].spec_ref_slot(j2).0 == 0)
                        || (old(objs)@[i as int].spec_ref_slot(j2).0 != 0
                            && resolved_to(reloc@, old(objs)@[i as int].spec_ref_slot(j2),
                                objs@[i as int].spec_ref_slot(j2))),
                forall|i2: int| 0 <= i2 < i ==> {
                    &&& (#[trigger] objs@[i2]).address == old(objs)@[i2].address
                    &&& objs@[i2].cls == old(objs)@[i2].cls
                    &&& objs@[i2].header == old(objs)@[i2].header
                    &&& objs@[i2].spec_num_ref_slots() == old(objs)@[i2].spec_num_ref_slots()
                    &&& ((objs@[i2].body is Fixed) == (old(objs)@[i2].body is Fixed))
                    &&& ((objs@[i2].body is RefArray) == (old(objs)@[i2].body is RefArray))
                    &&& ((objs@[i2].body is PrimArray)
                        == (old(objs)@[i2].body is PrimArray))
                    &&& ((objs@[i2].body is Str) == (old(objs)@[i2].body is Str))
                    &&& forall|c: Seq<ClassData>| (#[trigger] objs@[i2].spec_size(c))
                        == old(objs)@[i2].spec_size(c)
                },
                forall|i2: int, j2: int| 0 <= i2 < i
                    && 0 <= j2 < old(objs)@[i2].spec_num_ref_slots()
                    ==> ((#[trigger] objs@[i2].spec_ref_slot(j2)).0 == 0
                            && old(objs)@[i2].spec_ref_slot(j2).0 == 0)
                        || (old(objs)@[i2].spec_ref_slot(j2).0 != 0
                            && resolved_to(reloc@, old(objs)@[i2].spec_ref_slot(j2),
                                objs@[i2].spec_ref_slot(j2))),
            decreases m - j,
        {
            let v = objs[i].get_ref_slot(j);
            if !v.is_null() {
                let nv = resolve(reloc, v);
                let o = vec_index_mut(objs, i);
                o.set_ref_slot(j, nv);
            }
            j = j + 1;
        }
        i = i + 1;
    }
}

/// Clears every mark bit of a list.
fn unmark_list(objs: &mut Vec<Obj>)
    ensures
        final(objs)@.len() == old(objs)@.len(),
        forall|i: int| 0 <= i < old(objs)@.len() ==> #[trigger] final(objs)@[i] == (Obj {
            header: Header { marked: false, ..old(objs)@[i].header },
            ..old(objs)@[i]
        }),
{
    let n = objs.len();
    let mut i: usize = 0;
    while i < n
        invariant
            i <= n,
            n == objs@.len(),
            objs@.len() == old(objs)@.len(),
            forall|i2: int| i <= i2 < n ==> #[trigger] objs@[i2] == old(objs)@[i2],
            forall|i2: int| 0 <= i2 < i ==> #[trigger] objs@[i2] == (Obj {
                header: Header { marked: false, ..old(objs)@[i2].header },
                ..old(objs)@[i2]
            }),
        decreases n - i,
    {
        let o = vec_index_mut(objs, i);
        o.header_mut().unmark_non_atomic();
        i = i + 1;
    }
}

/// Multiples of the card size are pointer-aligned.
proof fn lemma_card_aligned(x: int)
    requires
        x % 512 == 0,
    ensures
        x % 8 == 0,
{
    vstd::arithmetic::div_mod::lemma_fundamental_div_mod(x, 512);
    vstd::arithmetic::div_mod::lemma_mod_multiples_basic(64 * (x / 512), 8);
    assert(512 * (x / 512) == 8 * (64 * (x / 512)));
}

/// Rewrites the crossing map for a fresh old-generation layout: each card
/// gets the offset of its first object, cards an object spans into point
/// back at its start card, untouched cards read as empty.
#[verifier::rlimit(100)]
fn rebuild_crossing(
    cm: &mut crate::crossing::CrossingMap,
    objs: &Vec<Obj>,
    classes: &Vec<ClassData>,
    base: usize,
)
    requires
        all_wf(objs@, classes@),
        base % 512 == 0,
        objs_within(objs@, base as int, base + old(cm).spec_len() * 512, classes@),
    ensures
        final(cm).spec_len() == old(cm).spec_len(),
{
    let cards = cm.entries.len();
    let mut c: usize = 0;
    while c < cards
        invariant
            c <= cards,
            cm.spec_len() == cards,
        decreases cards - c,
    {
        cm.record_no_object(c);
        c = c + 1;
    }
    let n = objs.len();
    let mut i: usize = 0;
    while i < n
        invariant
            i <= n,
            n == objs@.len(),
            cm.spec_len() == cards,
            all_wf(objs@, classes@),
            objs_within(objs@, base as int, base + cards * 512, classes@),
            base % 512 == 0,
        decreases n - i,
    {
        let addr = objs[i].address.to_usize();
        let size = objs[i].size(classes);
        proof {
            crate::heap::lemma_obj_size_pos(objs@[i as int], classes@);
            crate::card::lemma_card_index_in_range(addr as int, base as int, cards as int);
            crate::card::lemma_card_index_in_range(addr + size - 1, base as int,
                cards as int);
            vstd::arithmetic::div_mod::lemma_fundamental_div_mod(addr - base, 512);
            vstd::arithmetic::div_mod::lemma_mod_bound(addr - base, 512);
        }
        let card = (addr - base) / 512;
        let keep = match cm.entry_at(card) {
            crate::crossing::CrossingEntry::FirstObject(_) => true,
            _ => false,
        };
        if !keep {
            let off = addr - (base + card * 512);
            cm.record_first_object(card, off);
        }
        let last = (addr + size - 1 - base) / 512;
        let mut cc = card + 1;
        while cc <= last
            invariant
                card < cc <= last + 1,
                last < cards,
                cm.spec_len() == cards,
            decreases last + 1 - cc,
        {
            cm.record_starts_earlier(cc, cc - card);
            cc = cc + 1;
        }
        i = i + 1;
    }
}

/// EvacuateYoung/SweepCompactOld planning under the summary contract the
/// collection driver needs: the copies form a dense layout and the
/// relocation table runs parallel to them.
fn evacuate_phase(
    src: &Vec<Obj>,
    classes: &Vec<ClassData>,
    vtables: &Vec<Address>,
    dest0: usize,
    limit: usize,
    base: Ghost<int>,
    out: &mut Vec<Obj>,
    reloc: &mut Vec<(Address, Address)>,
) -> (r: Option<usize>)
    requires
        all_wf(src@, classes@),
        classes@.len() == vtables@.len(),
        forall|k: int| 0 <= k < vtables@.len()
            ==> (#[trigger] vtables@[k]).0 != 0 && vtables@[k].0 % 8 == 0,
        headers_plain(src@, vtables@),
        0 < base@ <= dest0 <= limit,
        dest0 % 8 == 0,
        limit <= usize::MAX,
        contiguous(old(out)@, base@, dest0 as int, classes@),
        objs_within(old(out)@, base@, dest0 as int, classes@),
        all_wf(old(out)@, classes@),
        crate::heap::clean_headers(old(out)@, vtables@),
        old(reloc)@.len() == old(out)@.len(),
        forall|k: int| 0 <= k < old(reloc)@.len()
            ==> (#[trigger] old(reloc)@[k]).1 == old(out)@[k].address,
    ensures
        final(out)@.len() >= old(out)@.len(),
        forall|i: int| 0 <= i < old(out)@.len() ==> #[trigger] final(out)@[i] == old(out)@[i],
        forall|k: int| 0 <= k < old(reloc)@.len()
            ==> #[trigger] final(reloc)@[k] == old(reloc)@[k],
        final(reloc)@.len() == final(out)@.len(),
        match r {
            Some(dest1) => {
                &&& forall|k: int| 0 <= k < final(reloc)@.len()
                    ==> (#[trigger] final(reloc)@[k]).1 == final(out)@[k].address
                &&& dest1 == dest0 + sum_marked(src@, classes@)
                &&& dest0 <= dest1 <= limit
                &&& dest1 % 8 == 0
                &&& contiguous(final(out)@, base@, dest1 as int, classes@)
                &&& objs_within(final(out)@, base@, dest1 as int, classes@)
                &&& all_wf(final(out)@, classes@)
                &&& crate::heap::clean_headers(final(out)@, vtables@)
                &&& evac_segment(src@, vtables@, final(out)@, final(reloc)@,
                    old(out)@.len() as int, final(out)@.len() as int)
            },
            None => dest0 + sum_marked(src@, classes@) > limit,
        },
{
    let ghost out0 = out@;
    let ghost reloc0 = reloc@;
    let r = evacuate_list(src, classes, vtables, dest0, limit, base, out, reloc);
    proof {
        reveal(crate::collector::evac_segment);
        lemma_sum_marked_nonneg(src@, classes@);
        if r is Some {
            assert forall|k: int| 0 <= k < reloc@.len()
                implies (#[trigger] reloc@[k]).1 == out@[k].address by {
                if k < reloc0.len() {
                    assert(reloc@[k] == reloc0[k]);
                    assert(out@[k] == out0[k]);
                } else {
                    let d = k - reloc0.len();
                    assert(0 <= d < out@.len() - out0.len());
                    let i = choose|i: int| 0 <= i < src@.len()
                        && (#[trigger] src@[i]).header.marked
                        && is_moved_copy(out@[out0.len() + d], src@[i],
                            out@[out0.len() + d].address, vtables@[src@[i].cls.0 as int])
                        && reloc@[reloc0.len() + d]
                            == (src@[i].address, out@[out0.len() + d].address);
                }
            }
            assert forall|d: int| out0.len() <= d < out@.len()
                implies exists|i: int| 0 <= i < src@.len()
                    && (#[trigger] src@[i]).header.marked
                    && is_moved_copy(#[trigger] out@[d], src@[i], out@[d].address,
                        vtables@[src@[i].cls.0 as int])
                    && reloc@[d] == (src@[i].address, out@[d].address) by {
                let d0 = d - out0.len();
                assert(0 <= d0 < out@.len() - out0.len());
                let i = choose|i: int| 0 <= i < src@.len()
                    && (#[trigger] src@[i]).header.marked
                    && is_moved_copy(out@[out0.len() + d0], src@[i],
                        out@[out0.len() + d0].address, vtables@[src@[i].cls.0 as int])
                    && reloc@[reloc0.len() + d0]
                        == (src@[i].address, out@[out0.len() + d0].address);
                assert(out@[d] == out@[out0.len() + d0]);
            }
        }
    }
    r
}

/// After an in-place repair pass — addresses, classes, headers, slot counts,
/// shapes and sizes untouched — every layout predicate carries over.
pub proof fn lemma_repaired_layout(
    prev: Seq<Obj>,
    cur: Seq<Obj>,
    classes: Seq<ClassData>,
    vtables: Seq<Address>,
)
    requires
        cur.len() == prev.len(),
        forall|i: int| 0 <= i < prev.len() ==> {
            &&& (#[trigger] cur[i]).address == prev[i].address
            &&& cur[i].cls == prev[i].cls
            &&& cur[i].header == prev[i].header
            &&& cur[i].spec_num_ref_slots() == prev[i].spec_num_ref_slots()
            &&& ((cur[i].body is Fixed) == (prev[i].body is Fixed))
            &&& ((cur[i].body is RefArray) == (prev[i].body is RefArray))
            &&& ((cur[i].body is PrimArray) == (prev[i].body is PrimArray))
            &&& ((cur[i].body is Str) == (prev[i].body is Str))
            &&& cur[i].spec_size(classes) == prev[i].spec_size(classes)
        },
        all_wf(prev, classes),
        crate::heap::clean_headers(prev, vtables),
    ensures
        all_wf(cur, classes),
        crate::heap::clean_headers(cur, vtables),
        forall|base: int, t: int| contiguous(prev, base, t, classes)
            ==> contiguous(cur, base, t, classes),
        forall|lo: int, hi: int| objs_within(prev, lo, hi, classes)
            ==> objs_within(cur, lo, hi, classes),
        objs_disjoint(prev, classes) ==> objs_disjoint(cur, classes),
        forall|a: int| objs_has_start(cur, a) <==> objs_has_start(prev, a),
{
    assert forall|i: int| 0 <= i < cur.len() implies (#[trigger] cur[i]).wf(classes) by {
        assert(prev[i].wf(classes));
        match cur[i].body {
            ObjBody::Fixed { fields } => {
                assert(fields@.len() as int == cur[i].spec_num_ref_slots());
            },
            _ => {},
        }
    }
    assert forall|base: int, t: int| contiguous(prev, base, t, classes)
        implies contiguous(cur, base, t, classes) by {
        assert forall|i: int| 0 <= i < cur.len() - 1
            implies (#[trigger] cur[i + 1]).address.0 == cur[i].address.0
                + cur[i].spec_size(classes) by {
            assert(prev[i + 1].address.0 == prev[i].address.0 + prev[i].spec_size(classes));
        }
        if cur.len() > 0 {
            assert(cur[cur.len() - 1].spec_size(classes)
                == prev[prev.len() - 1].spec_size(classes));
        }
    }
    assert forall|lo: int, hi: int| objs_within(prev, lo, hi, classes)
        implies objs_within(cur, lo, hi, classes) by {
        assert forall|i: int| 0 <= i < cur.len()
            implies lo <= (#[trigger] cur[i]).address.0
                && cur[i].address.0 + cur[i].spec_size(classes) <= hi by {
            assert(lo <= prev[i].address.0
                && prev[i].address.0 + prev[i].spec_size(classes) <= hi);
        }
    }
    if objs_disjoint(prev, classes) {
        assert forall|i: int| 0 <= i < cur.len() - 1
            implies (#[trigger] cur[i]).address.0 + cur[i].spec_size(classes)
                <= cur[i + 1].address.0 by {
            assert(prev[i].address.0 + prev[i].spec_size(classes) <= prev[i + 1].address.0);
        }
    }
    assert forall|a: int| objs_has_start(cur, a) <==> objs_has_start(prev, a) by {
        if objs_has_start(cur, a) {
            let k = choose|k: int| 0 <= k < cur.len() && (#[trigger] cur[k]).address.0 == a;
            assert(prev[k].address.0 == a);
        }
        if objs_has_start(prev, a) {
            let k = choose|k: int| 0 <= k < prev.len() && (#[trigger] prev[k]).address.0 == a;
            assert(cur[k].address.0 == a);
        }
    }
}

/// `m` is the marking of `pre` under `roots`: only mark bits were set, every
/// non-null root's object is marked, the marks are closed under references,
/// and an object is marked exactly when it is reachable from the root set —
/// which pins the marked set completely.
#[verifier::opaque]
pub open spec fn marking_of(pre: Heap, roots: Seq<Address>, m: Heap) -> bool {
    &&& m.wf_marked()
    &&& mark_frame(pre, m)
    &&& forall|k: int| 0 <= k < roots.len() && (#[trigger] roots[k]).0 != 0
        ==> marked_at(m, roots[k])
    &&& marks_closed(m)
    &&& forall|a: Address| marked_at(m, a) <==> reachable(m, roots, a)
}

/// Whether the survivors of the marking `m` fit the old generation: the
/// exact condition for a full cycle to succeed.
pub open spec fn survivors_fit(m: Heap) -> bool {
    m.old.base + sum_marked(m.old_objs@, m.classes@) + sum_marked(m.young_objs@, m.classes@)
        <= m.old.end
}

/// `c` is the repaired copy of survivor `o`, placed at `addr`: fresh clean
/// header naming the class's vtable, same class, payload shape and size,
/// and every reference slot rewritten through the relocation table.
pub open spec fn is_repaired_copy(
    c: Obj,
    o: Obj,
    addr: Address,
    vtbl: Address,
    classes: Seq<ClassData>,
    reloc: Seq<(Address, Address)>,
) -> bool {
    &&& c.address == addr
    &&& c.header == (Header {
        vtable: crate::object::ClassWord::Pointer(vtbl),
        fwdptr: Address(0),
        marked: false,
    })
    &&& c.cls == o.cls
    &&& c.spec_num_ref_slots() == o.spec_num_ref_slots()
    &&& c.spec_size(classes) == o.spec_size(classes)
    &&& forall|j: int| 0 <= j < o.spec_num_ref_slots()
        ==> ((#[trigger] c.spec_ref_slot(j)).0 == 0 && o.spec_ref_slot(j).0 == 0)
            || (o.spec_ref_slot(j).0 != 0
                && resolved_to(reloc, o.spec_ref_slot(j), c.spec_ref_slot(j)))
}

/// Element `d` of the compacted old generation is the repaired copy of a
/// marked young- or old-generation object of the marking `m`, and entry `d`
/// of the relocation table records the move.
pub open spec fn compacted_ok(m: Heap, objs: Seq<Obj>, reloc: Seq<(Address, Address)>,
    d: int) -> bool {
    ||| exists|i: int| 0 <= i < m.old_objs@.len()
        && (#[trigger] m.old_objs@[i]).header.marked
        && is_repaired_copy(objs[d], m.old_objs@[i], objs[d].address,
            m.vtables@[m.old_objs@[i].cls.0 as int], m.classes@, reloc)
        && reloc[d].0 == m.old_objs@[i].address
    ||| exists|i: int| 0 <= i < m.young_objs@.len()
        && (#[trigger] m.young_objs@[i]).header.marked
        && is_repaired_copy(objs[d], m.young_objs@[i], objs[d].address,
            m.vtables@[m.young_objs@[i].cls.0 as int], m.classes@, reloc)
        && reloc[d].0 == m.young_objs@[i].address
}

/// Element `k` of the surviving large space is the repaired copy, in place,
/// of a marked large object of the marking `m`.
pub open spec fn large_kept_ok(m: Heap, objs: Seq<Obj>, reloc: Seq<(Address, Address)>,
    k: int) -> bool {
    exists|j: int| 0 <= j < m.large_objs@.len()
        && (#[trigger] m.large_objs@[j]).header.marked
        && is_repaired_copy(objs[k], m.large_objs@[j], m.large_objs@[j].address,
            m.vtables@[m.large_objs@[j].cls.0 as int], m.classes@, reloc)
}

/// The facts one evacuation pass leaves about positions `[lo, hi)` of the
/// staged list: each is a moved copy of a marked `src` object with its
/// relocation entry, and every marked `src` object is covered.
#[verifier::opaque]
pub open spec fn evac_segment(
    src: Seq<Obj>,
    vtables: Seq<Address>,
    out: Seq<Obj>,
    reloc: Seq<(Address, Address)>,
    lo: int,
    hi: int,
) -> bool {
    &&& 0 <= lo <= hi <= out.len()
    &&& hi <= reloc.len()
    &&& forall|d: int| lo <= d < hi ==> exists|i: int| 0 <= i < src.len()
        && (#[trigger] src[i]).header.marked
        && is_moved_copy(#[trigger] out[d], src[i], out[d].address,
            vtables[src[i].cls.0 as int])
        && reloc[d] == (src[i].address, out[d].address)
    &&& forall|i: int| 0 <= i < src.len() && (#[trigger] src[i]).header.marked
        ==> exists|k: int| lo <= k < hi && (#[trigger] reloc[k]).0 == src[i].address
}

/// The facts the large-object sweep leaves: every kept object is a moved
/// copy, in place, of a marked `src` object, and every marked `src` object
/// is kept.
#[verifier::opaque]
pub open spec fn sweep_facts(src: Seq<Obj>, vtables: Seq<Address>, out: Seq<Obj>) -> bool {
    &&& forall|k: int| 0 <= k < out.len() ==> exists|j: int| 0 <= j < src.len()
        && (#[trigger] src[j]).header.marked
        && is_moved_copy(#[trigger] out[k], src[j], src[j].address,
            vtables[src[j].cls.0 as int])
    &&& forall|j: int| 0 <= j < src.len() && (#[trigger] src[j]).header.marked
        ==> objs_has_start(out, src[j].address.0 as int)
}

/// A staged segment is untouched by later appends to the staging lists.
pub proof fn lemma_evac_segment_extend(
    src: Seq<Obj>,
    vtables: Seq<Address>,
    out1: Seq<Obj>,
    out2: Seq<Obj>,
    reloc1: Seq<(Address, Address)>,
    reloc2: Seq<(Address, Address)>,
    lo: int,
    hi: int,
)
    requires
        evac_segment(src, vtables, out1, reloc1, lo, hi),
        out2.len() >= out1.len(),
        reloc2.len() >= reloc1.len(),
        forall|i: int| 0 <= i < out1.len() ==> #[trigger] out2[i] == out1[i],
        forall|k: int| 0 <= k < reloc1.len() ==> #[trigger] reloc2[k] == reloc1[k],
    ensures
        evac_segment(src, vtables, out2, reloc2, lo, hi),
{
    reveal(crate::collector::evac_segment);
    assert forall|d: int| lo <= d < hi implies exists|i: int| 0 <= i < src.len()
        && (#[trigger] src[i]).header.marked
        && is_moved_copy(#[trigger] out2[d], src[i], out2[d].address,
            vtables[src[i].cls.0 as int])
        && reloc2[d] == (src[i].address, out2[d].address) by {
        let i = choose|i: int| 0 <= i < src.len() && (#[trigger] src[i]).header.marked
            && is_moved_copy(out1[d], src[i], out1[d].address,
                vtables[src[i].cls.0 as int])
            && reloc1[d] == (src[i].address, out1[d].address);
        assert(out2[d] == out1[d]);
        assert(reloc2[d] == reloc1[d]);
    }
    assert forall|i: int| 0 <= i < src.len() && (#[trigger] src[i]).header.marked
        implies exists|k: int| lo <= k < hi && (#[trigger] reloc2[k]).0 == src[i].address by {
        let k = choose|k: int| lo <= k < hi && (#[trigger] reloc1[k]).0 == src[i].address;
        assert(reloc2[k] == reloc1[k]);
    }
}

/// What a successful collection built from the marking `m`: the young
/// generation is empty; the compacted old generation consists exactly of
/// the repaired copies of the marked young and old objects, with the
/// relocation table naming each source and destination; every marked young
/// or old object has its entry; and the large space keeps exactly the
/// repaired copies of its marked objects, in place.
#[verifier::opaque]
pub open spec fn collection_outcome(
    m: Heap,
    post: Heap,
    reloc: Seq<(Address, Address)>,
) -> bool {
    &&& post.young_objs@.len() == 0
    &&& reloc.len() == post.old_objs@.len()
    &&& forall|k: int| 0 <= k < reloc.len()
        ==> (#[trigger] reloc[k]).1 == post.old_objs@[k].address
    &&& forall|d: int| 0 <= d < post.old_objs@.len()
        ==> #[trigger] compacted_ok(m, post.old_objs@, reloc, d)
    &&& forall|i: int| 0 <= i < m.old_objs@.len()
        && (#[trigger] m.old_objs@[i]).header.marked
        ==> exists|k: int| 0 <= k < reloc.len()
            && (#[trigger] reloc[k]).0 == m.old_objs@[i].address
    &&& forall|i: int| 0 <= i < m.young_objs@.len()
        && (#[trigger] m.young_objs@[i]).header.marked
        ==> exists|k: int| 0 <= k < reloc.len()
            && (#[trigger] reloc[k]).0 == m.young_objs@[i].address
    &&& forall|k: int| 0 <= k < post.large_objs@.len()
        ==> #[trigger] large_kept_ok(m, post.large_objs@, reloc, k)
    &&& forall|j: int| 0 <= j < m.large_objs@.len()
        && (#[trigger] m.large_objs@[j]).header.marked
        ==> objs_has_start(post.large_objs@, m.large_objs@[j].address.0 as int)
}

/// The shape `repair_objs` leaves a list in, relative to its input.
pub open spec fn repaired_list(prev: Seq<Obj>, cur: Seq<Obj>, classes: Seq<ClassData>,
    reloc: Seq<(Address, Address)>) -> bool {
    &&& cur.len() == prev.len()
    &&& forall|i: int| 0 <= i < prev.len() ==> {
        &&& (#[trigger] cur[i]).address == prev[i].address
        &&& cur[i].cls == prev[i].cls
        &&& cur[i].header == prev[i].header
        &&& cur[i].spec_num_ref_slots() == prev[i].spec_num_ref_slots()
        &&& ((cur[i].body is Fixed) == (prev[i].body is Fixed))
        &&& ((cur[i].body is RefArray) == (prev[i].body is RefArray))
        &&& ((cur[i].body is PrimArray) == (prev[i].body is PrimArray))
        &&& ((cur[i].body is Str) == (prev[i].body is Str))
        &&& cur[i].spec_size(classes) == prev[i].spec_size(classes)
    }
    &&& forall|i: int, j: int| 0 <= i < prev.len() && 0 <= j < prev[i].spec_num_ref_slots()
        ==> ((#[trigger] cur[i].spec_ref_slot(j)).0 == 0 && prev[i].spec_ref_slot(j).0 == 0)
            || (prev[i].spec_ref_slot(j).0 != 0
                && resolved_to(reloc, prev[i].spec_ref_slot(j), cur[i].spec_ref_slot(j)))
}

/// Repairing the copied lists turns the phase facts into the collection
/// outcome: every compacted or kept object is a repaired copy of its marked
/// source, with the table naming the sources.
#[verifier::rlimit(100)]
#[verifier::spinoff_prover]
proof fn lemma_outcome_assembly(
    m: Heap,
    no_pre: Seq<Obj>,
    no_post: Seq<Obj>,
    nl_pre: Seq<Obj>,
    nl_post: Seq<Obj>,
    reloc: Seq<(Address, Address)>,
    l1: int,
)
    requires
        reloc.len() == no_pre.len(),
        forall|k: int| 0 <= k < reloc.len()
            ==> (#[trigger] reloc[k]).1 == no_pre[k].address,
        0 <= l1 <= no_pre.len(),
        evac_segment(m.old_objs@, m.vtables@, no_pre, reloc, 0, l1),
        evac_segment(m.young_objs@, m.vtables@, no_pre, reloc, l1, no_pre.len() as int),
        sweep_facts(m.large_objs@, m.vtables@, nl_pre),
        repaired_list(no_pre, no_post, m.classes@, reloc),
        repaired_list(nl_pre, nl_post, m.classes@, reloc),
    ensures
        reloc.len() == no_post.len(),
        forall|k: int| 0 <= k < reloc.len()
            ==> (#[trigger] reloc[k]).1 == no_post[k].address,
        forall|d: int| 0 <= d < no_post.len()
            ==> #[trigger] compacted_ok(m, no_post, reloc, d),
        forall|k: int| 0 <= k < nl_post.len()
            ==> #[trigger] large_kept_ok(m, nl_post, reloc, k),
        forall|i: int| 0 <= i < m.old_objs@.len()
            && (#[trigger] m.old_objs@[i]).header.marked
            ==> exists|k: int| 0 <= k < reloc.len()
                && (#[trigger] reloc[k]).0 == m.old_objs@[i].address,
        forall|i: int| 0 <= i < m.young_objs@.len()
            && (#[trigger] m.young_objs@[i]).header.marked
            ==> exists|k: int| 0 <= k < reloc.len()
                && (#[trigger] reloc[k]).0 == m.young_objs@[i].address,
        forall|j: int| 0 <= j < m.large_objs@.len()
            && (#[trigger] m.large_objs@[j]).header.marked
            ==> objs_has_start(nl_post, m.large_objs@[j].address.0 as int),
{
    reveal(crate::collector::evac_segment);
    reveal(crate::collector::sweep_facts);
    assert forall|d: int| 0 <= d < no_post.len()
        implies #[trigger] compacted_ok(m, no_post, reloc, d) by {
        if d < l1 {
            let i = choose|i: int| 0 <= i < m.old_objs@.len()
                && (#[trigger] m.old_objs@[i]).header.marked
                && is_moved_copy(no_pre[d], m.old_objs@[i], no_pre[d].address,
                    m.vtables@[m.old_objs@[i].cls.0 as int])
                && reloc[d] == (m.old_objs@[i].address, no_pre[d].address);
            lemma_body_like(no_pre[d], m.old_objs@[i], m.classes@);
            assert(is_repaired_copy(no_post[d], m.old_objs@[i], no_post[d].address,
                m.vtables@[m.old_objs@[i].cls.0 as int], m.classes@, reloc)) by {
                assert forall|j: int| 0 <= j < m.old_objs@[i].spec_num_ref_slots()
                    implies ((#[trigger] no_post[d].spec_ref_slot(j)).0 == 0
                            && m.old_objs@[i].spec_ref_slot(j).0 == 0)
                        || (m.old_objs@[i].spec_ref_slot(j).0 != 0
                            && resolved_to(reloc, m.old_objs@[i].spec_ref_slot(j),
                                no_post[d].spec_ref_slot(j))) by {
                    assert(no_pre[d].spec_ref_slot(j) == m.old_objs@[i].spec_ref_slot(j));
                }
            }
        } else {
            let i = choose|i: int| 0 <= i < m.young_objs@.len()
                && (#[trigger] m.young_objs@[i]).header.marked
                && is_moved_copy(no_pre[d], m.young_objs@[i], no_pre[d].address,
                    m.vtables@[m.young_objs@[i].cls.0 as int])
                && reloc[d] == (m.young_objs@[i].address, no_pre[d].address);
            lemma_body_like(no_pre[d], m.young_objs@[i], m.classes@);
            assert(is_repaired_copy(no_post[d], m.young_objs@[i], no_post[d].address,
                m.vtables@[m.young_objs@[i].cls.0 as int], m.classes@, reloc)) by {
                assert forall|j: int| 0 <= j < m.young_objs@[i].spec_num_ref_slots()
                    implies ((#[trigger] no_post[d].spec_ref_slot(j)).0 == 0
                            && m.young_objs@[i].spec_ref_slot(j).0 == 0)
                        || (m.young_objs@[i].spec_ref_slot(j).0 != 0
                            && resolved_to(reloc, m.young_objs@[i].spec_ref_slot(j),
                                no_post[d].spec_ref_slot(j))) by {
                    assert(no_pre[d].spec_ref_slot(j) == m.young_objs@[i].spec_ref_slot(j));
                }
            }
        }
    }
    assert forall|k: int| 0 <= k < nl_post.len()
        implies #[trigger] large_kept_ok(m, nl_post, reloc, k) by {
        let pre_k = nl_pre[k];
        assert(exists|j2: int| 0 <= j2 < m.large_objs@.len()
            && (#[trigger] m.large_objs@[j2]).header.marked
            && is_moved_copy(nl_pre[k], m.large_objs@[j2], m.large_objs@[j2].address,
                m.vtables@[m.large_objs@[j2].cls.0 as int]));
        let j2 = choose|j2: int| 0 <= j2 < m.large_objs@.len()
            && (#[trigger] m.large_objs@[j2]).header.marked
            && is_moved_copy(nl_pre[k], m.large_objs@[j2], m.large_objs@[j2].address,
                m.vtables@[m.large_objs@[j2].cls.0 as int]);
        lemma_body_like(nl_pre[k], m.large_objs@[j2], m.classes@);
        assert(is_repaired_copy(nl_post[k], m.large_objs@[j2], m.large_objs@[j2].address,
            m.vtables@[m.large_objs@[j2].cls.0 as int], m.classes@, reloc)) by {
            assert forall|j: int| 0 <= j < m.large_objs@[j2].spec_num_ref_slots()
                implies ((#[trigger] nl_post[k].spec_ref_slot(j)).0 == 0
                        && m.large_objs@[j2].spec_ref_slot(j).0 == 0)
                    || (m.large_objs@[j2].spec_ref_slot(j).0 != 0
                        && resolved_to(reloc, m.large_objs@[j2].spec_ref_slot(j),
                            nl_post[k].spec_ref_slot(j))) by {
                assert(nl_pre[k].spec_ref_slot(j) == m.large_objs@[j2].spec_ref_slot(j));
            }
        }
    }
    assert forall|j: int| 0 <= j < m.large_objs@.len()
        && (#[trigger] m.large_objs@[j]).header.marked
        implies objs_has_start(nl_post, m.large_objs@[j].address.0 as int) by {
        let k = choose|k: int| 0 <= k < nl_pre.len()
            && (#[trigger] nl_pre[k]).address.0 == m.large_objs@[j].address.0 as int;
        assert(nl_post[k].address.0 == m.large_objs@[j].address.0 as int);
    }
}

impl Heap {
    /// One full, stop-the-world collection: MarkLive traces `roots`,
    /// EvacuateYoung copies the young survivors behind the compacted old
    /// generation (destination space is pre-reserved: if the survivors
    /// cannot fit, the whole cycle fails with `OutOfMemory` and the heap is
    /// left exactly as it was), SweepCompactOld slides the old survivors
    /// into a dense prefix and reclaims the rest, and Repair rewrites every
    /// reference slot and root through the relocation table, clears the
    /// marks, rewrites the crossing map and cleans the card table. On
    /// success the returned table lists every moved object as an
    /// (old address, new address) pair; sizes and classes are preserved
    /// across the move, the young generation is empty and every header is a
    /// plain class pointer again.
    #[verifier::rlimit(100)]
    #[verifier::spinoff_prover]
    pub fn collect_garbage(&mut self, roots: &mut Vec<Address>, reason: crate::space::GcReason)
        -> (r: Result<Vec<(Address, Address)>, crate::space::GcError>)
        requires
            old(self).wf(),
            forall|k: int| 0 <= k < old(roots)@.len()
                ==> old(self).valid_ref(#[trigger] old(roots)@[k]),
        ensures
            final(self).classes@ == old(self).classes@,
            final(self).vtables@ == old(self).vtables@,
            final(self).perm == old(self).perm,
            final(roots)@.len() == old(roots)@.len(),
            match r {
                Ok(reloc) => {
                    &&& final(self).young_objs@.len() == 0
                    &&& final(self).young.top == final(self).young.base
                    &&& final(self).old.base == old(self).old.base
                    &&& forall|c: int| 0 <= c < final(self).card_table.spec_len()
                        ==> !final(self).card_table.dirty@[c]
                    &&& final(self).card_table.base == old(self).card_table.base
                    &&& final(self).card_table.spec_len() == old(self).card_table.spec_len()
                    &&& final(self).crossing.spec_len() == old(self).crossing.spec_len()
                    &&& forall|k: int| 0 <= k < old(roots)@.len()
                        ==> (((#[trigger] old(roots)@[k]).0 == 0)
                            == (final(roots)@[k].0 == 0))
                    &&& forall|k: int| 0 <= k < old(roots)@.len()
                        && (#[trigger] old(roots)@[k]).0 != 0
                        ==> resolved_to(reloc@, old(roots)@[k], final(roots)@[k])
                    &&& reloc@.len() == final(self).old_objs@.len()
                    &&& forall|k: int| 0 <= k < reloc@.len()
                        ==> final(self).old_objs@[k].address == (#[trigger] reloc@[k]).1
                    &&& forall|k: int| 0 <= k < final(self).old_objs@.len()
                        ==> ((#[trigger] final(self).old_objs@[k]).header.vtable is Pointer)
                            && !final(self).old_objs@[k].header.marked
                    &&& forall|k: int| 0 <= k < final(self).large_objs@.len()
                        ==> ((#[trigger] final(self).large_objs@[k]).header.vtable is Pointer)
                            && !final(self).large_objs@[k].header.marked
                    &&& exists|m: Heap| #[trigger] marking_of(*old(self), old(roots)@, m)
                        && survivors_fit(m)
                        && collection_outcome(m, *final(self), reloc@)
                },
                Err(_) => {
                    &&& final(self).wf()
                    &&& final(self).young_objs@ == old(self).young_objs@
                    &&& final(self).old_objs@ == old(self).old_objs@
                    &&& final(self).large_objs@ == old(self).large_objs@
                    &&& final(self).young == old(self).young
                    &&& final(self).old == old(self).old
                    &&& final(self).large == old(self).large
                    &&& final(self).card_table == old(self).card_table
                    &&& final(self).crossing == old(self).crossing
                    &&& final(roots)@ == old(roots)@
                    &&& exists|m: Heap| #[trigger] marking_of(*old(self), old(roots)@, m)
                        && !survivors_fit(m)
                },
            },
    {
        let ghost pre = *self;
        mark_live(self, roots);
        let ghost marked = *self;
        proof {
            reveal(crate::collector::marking_of);
            lemma_card_aligned(self.old.base as int);
            lemma_sum_marked_nonneg(marked.young_objs@, marked.classes@);
            lemma_sum_marked_nonneg(marked.old_objs@, marked.classes@);
            assert(marking_of(pre, old(roots)@, marked));
        }
        let mut new_old: Vec<Obj> = Vec::new();
        let mut reloc: Vec<(Address, Address)> = Vec::new();
        let d1 = match evacuate_phase(&self.old_objs, &self.classes, &self.vtables,
            self.old.base, self.old.end, Ghost(self.old.base as int), &mut new_old,
            &mut reloc) {
            Some(d) => d,
            None => {
                proof {
                    assert(!survivors_fit(marked));
                }
                self.restore_after_oom(Ghost(pre));
                return Err(crate::space::GcError::OutOfMemory);
            },
        };
        let ghost l1 = new_old@.len() as int;
        let ghost mid_out = new_old@;
        let ghost mid_rl = reloc@;
        let d2 = match evacuate_phase(&self.young_objs, &self.classes, &self.vtables, d1,
            self.old.end, Ghost(self.old.base as int), &mut new_old, &mut reloc) {
            Some(d) => d,
            None => {
                proof {
                    assert(!survivors_fit(marked));
                }
                self.restore_after_oom(Ghost(pre));
                return Err(crate::space::GcError::OutOfMemory);
            },
        };
        proof {
            assert(survivors_fit(marked));
            lemma_evac_segment_extend(marked.old_objs@, marked.vtables@, mid_out,
                new_old@, mid_rl, reloc@, 0, l1);
        }
        let new_large = sweep_large(&self.large_objs, &self.classes, &self.vtables);
        let out = self.repair_and_commit(roots, new_old, new_large, reloc, d2, Ghost(l1),
            Ghost(pre));
        proof {
            assert(marking_of(pre, old(roots)@, marked) && survivors_fit(marked)
                && collection_outcome(marked, *self, out@));
        }
        Ok(out)
    }

    /// The repair pass over the staged lists and the root set: every
    /// reference slot and root is rewritten through the relocation table.
    #[verifier::rlimit(100)]
    #[verifier::spinoff_prover]
    fn repair_stage(
        roots: &mut Vec<Address>,
        new_old: Vec<Obj>,
        new_large: Vec<Obj>,
        reloc: &Vec<(Address, Address)>,
        classes: Ghost<Seq<ClassData>>,
    ) -> (r: (Vec<Obj>, Vec<Obj>))
        requires
            forall|k: int| 0 <= k < reloc@.len() ==> (#[trigger] reloc@[k]).1.0 != 0,
        ensures
            repaired_list(new_old@, r.0@, classes@, reloc@),
            repaired_list(new_large@, r.1@, classes@, reloc@),
            final(roots)@.len() == old(roots)@.len(),
            forall|k: int| 0 <= k < old(roots)@.len()
                ==> (((#[trigger] old(roots)@[k]).0 == 0) == (final(roots)@[k].0 == 0)),
            forall|k: int| 0 <= k < old(roots)@.len() && (#[trigger] old(roots)@[k]).0 != 0
                ==> resolved_to(reloc@, old(roots)@[k], final(roots)@[k]),
    {
        let mut new_old = new_old;
        let mut new_large = new_large;
        repair_objs(&mut new_old, reloc);
        repair_objs(&mut new_large, reloc);
        let nroots = roots.len();
        let mut k: usize = 0;
        while k < nroots
            invariant
                k <= nroots,
                nroots == roots@.len(),
                roots@.len() == old(roots)@.len(),
                forall|k2: int| 0 <= k2 < reloc@.len() ==> (#[trigger] reloc@[k2]).1.0 != 0,
                forall|k2: int| k <= k2 < nroots ==> #[trigger] roots@[k2] == old(roots)@[k2],
                forall|k2: int| 0 <= k2 < k ==> (((#[trigger] roots@[k2]).0 == 0)
                    == (old(roots)@[k2].0 == 0))
                    && (old(roots)@[k2].0 != 0 ==> resolved_to(reloc@, old(roots)@[k2],
                        roots@[k2])),
            decreases nroots - k,
        {
            let rv = roots[k];
            if !rv.is_null() {
                let nv = resolve(reloc, rv);
                roots.set(k, nv);
            }
            k = k + 1;
        }
        (new_old, new_large)
    }

    /// Installs the rebuilt lists and metadata: the compacted old
    /// generation, the emptied young generation, the surviving large
    /// objects, the cleaned card table and the rewritten crossing map.
    #[verifier::rlimit(100)]
    #[verifier::spinoff_prover]
    fn commit_lists(&mut self, new_old: Vec<Obj>, new_large: Vec<Obj>, d2: usize)
        requires
            all_wf(new_old@, old(self).classes@),
            objs_within(new_old@, old(self).old.base as int, d2 as int,
                old(self).classes@),
            old(self).old.wf(),
            old(self).old.base <= d2 <= old(self).old.end,
            d2 % 8 == 0,
            old(self).old.base % 512 == 0,
            old(self).card_table.spec_len() * 512 == old(self).old.end
                - old(self).old.base,
            old(self).crossing.spec_len() == old(self).card_table.spec_len(),
            old(self).young.wf(),
        ensures
            final(self).old_objs@ == new_old@,
            final(self).large_objs@ == new_large@,
            final(self).young_objs@.len() == 0,
            final(self).classes@ == old(self).classes@,
            final(self).vtables@ == old(self).vtables@,
            final(self).perm == old(self).perm,
            final(self).young.top == final(self).young.base,
            final(self).young.base == old(self).young.base,
            final(self).old.top == d2,
            final(self).old.base == old(self).old.base,
            final(self).large == old(self).large,
            forall|c: int| 0 <= c < final(self).card_table.spec_len()
                ==> !final(self).card_table.dirty@[c],
            final(self).card_table.base == old(self).card_table.base,
            final(self).card_table.spec_len() == old(self).card_table.spec_len(),
            final(self).crossing.spec_len() == old(self).crossing.spec_len(),
    {
        self.old_objs = new_old;
        self.young_objs = Vec::new();
        self.large_objs = new_large;
        self.young.reset();
        self.old.set_top(d2);
        self.card_table.clear_all();
        rebuild_crossing(&mut self.crossing, &self.old_objs, &self.classes, self.old.base);
    }

    /// Repair and the commit of the new layout: rewrites every reference
    /// slot and root through the relocation table, installs the compacted
    /// old generation, empties the young generation, drops the dead large
    /// objects, cleans the card table and rewrites the crossing map.
    #[verifier::rlimit(100)]
    #[verifier::spinoff_prover]
    fn repair_and_commit(
        &mut self,
        roots: &mut Vec<Address>,
        new_old: Vec<Obj>,
        new_large: Vec<Obj>,
        reloc: Vec<(Address, Address)>,
        d2: usize,
        l1: Ghost<int>,
        pre: Ghost<Heap>,
    ) -> (out: Vec<(Address, Address)>)
        requires
            pre@.old.base % 512 == 0,
            pre@.card_table.spec_len() * 512 == pre@.old.end - pre@.old.base,
            old(self).card_table.spec_len() == pre@.card_table.spec_len(),
            old(self).crossing.spec_len() == pre@.card_table.spec_len(),
            old(self).classes@ == pre@.classes@,
            old(self).vtables@ == pre@.vtables@,
            old(self).perm == pre@.perm,
            old(self).young == pre@.young,
            old(self).card_table == pre@.card_table,
            old(self).crossing == pre@.crossing,
            reloc@.len() == new_old@.len(),
            forall|k: int| 0 <= k < reloc@.len()
                ==> (#[trigger] reloc@[k]).1 == new_old@[k].address,
            0 <= l1@ <= new_old@.len(),
            evac_segment(old(self).old_objs@, old(self).vtables@, new_old@, reloc@, 0, l1@),
            evac_segment(old(self).young_objs@, old(self).vtables@, new_old@, reloc@, l1@,
                new_old@.len() as int),
            sweep_facts(old(self).large_objs@, old(self).vtables@, new_large@),
            all_wf(new_large@, pre@.classes@),
            objs_disjoint(new_large@, pre@.classes@),
            crate::heap::clean_headers(new_large@, pre@.vtables@),
            objs_within(new_large@, pre@.large.base as int, pre@.large.top as int,
                pre@.classes@),
            all_wf(new_old@, pre@.classes@),
            crate::heap::clean_headers(new_old@, pre@.vtables@),
            contiguous(new_old@, pre@.old.base as int, d2 as int, pre@.classes@),
            objs_within(new_old@, pre@.old.base as int, d2 as int, pre@.classes@),
            old(self).old == pre@.old,
            old(self).old.wf(),
            old(self).young.wf(),
            pre@.old.base <= d2 <= pre@.old.end,
            d2 % 8 == 0,
        ensures
            final(self).classes@ == pre@.classes@,
            final(self).vtables@ == pre@.vtables@,
            final(self).perm == pre@.perm,
            final(roots)@.len() == old(roots)@.len(),
            final(self).young_objs@.len() == 0,
            final(self).young.top == final(self).young.base,
            final(self).old.top == d2,
            final(self).old.base == pre@.old.base,
            forall|c: int| 0 <= c < final(self).card_table.spec_len()
                ==> !final(self).card_table.dirty@[c],
            final(self).card_table.base == pre@.card_table.base,
            final(self).card_table.spec_len() == pre@.card_table.spec_len(),
            final(self).crossing.spec_len() == pre@.crossing.spec_len(),
            forall|k: int| 0 <= k < old(roots)@.len()
                ==> (((#[trigger] old(roots)@[k]).0 == 0) == (final(roots)@[k].0 == 0)),
            forall|k: int| 0 <= k < old(roots)@.len() && (#[trigger] old(roots)@[k]).0 != 0
                ==> resolved_to(reloc@, old(roots)@[k], final(roots)@[k]),
            forall|k: int| 0 <= k < final(self).old_objs@.len()
                ==> ((#[trigger] final(self).old_objs@[k]).header.vtable is Pointer)
                    && !final(self).old_objs@[k].header.marked,
            forall|k: int| 0 <= k < final(self).large_objs@.len()
                ==> ((#[trigger] final(self).large_objs@[k]).header.vtable is Pointer)
                    && !final(self).large_objs@[k].header.marked,
            out@ == reloc@,
            reloc@.len() == final(self).old_objs@.len(),
            forall|k: int| 0 <= k < reloc@.len()
                ==> final(self).old_objs@[k].address == (#[trigger] reloc@[k]).1,
            collection_outcome(*old(self), *final(self), reloc@),
        {
        let ghost marked = *old(self);
        let ghost no_pre = new_old@;
        let ghost nl_pre = new_large@;
        proof {
            assert forall|k: int| 0 <= k < reloc@.len()
                implies (#[trigger] reloc@[k]).1.0 != 0 by {
                assert(new_old@[k].wf(pre@.classes@));
            }
        }
        let (new_old, new_large) = Self::repair_stage(roots, new_old, new_large, &reloc,
            Ghost(pre@.classes@));
        proof {
            lemma_repaired_layout(no_pre, new_old@, pre@.classes@, pre@.vtables@);
            lemma_repaired_layout(nl_pre, new_large@, pre@.classes@, pre@.vtables@);
        }
        self.commit_lists(new_old, new_large, d2);
        proof {
            reveal(crate::collector::collection_outcome);
            lemma_outcome_assembly(marked, no_pre, self.old_objs@, nl_pre,
                self.large_objs@, reloc@, l1@);
        }
        reloc
    }

    /// Clears every mark set by a failed cycle, restoring the heap exactly
    /// as the mutator left it.
    #[verifier::rlimit(100)]
    #[verifier::spinoff_prover]
    fn restore_after_oom(&mut self, pre: Ghost<Heap>)
        requires
            old(self).wf_marked(),
            pre@.wf(),
            mark_frame(pre@, *old(self)),
        ensures
            final(self).wf(),
            final(self).young_objs@ == pre@.young_objs@,
            final(self).old_objs@ == pre@.old_objs@,
            final(self).large_objs@ == pre@.large_objs@,
            final(self).classes@ == pre@.classes@,
            final(self).vtables@ == pre@.vtables@,
            final(self).young == pre@.young,
            final(self).old == pre@.old,
            final(self).large == pre@.large,
            final(self).perm == pre@.perm,
            final(self).card_table == pre@.card_table,
            final(self).crossing == pre@.crossing,
    {
        unmark_list(&mut self.young_objs);
        unmark_list(&mut self.old_objs);
        unmark_list(&mut self.large_objs);
        proof {
            assert(self.young_objs@ =~= pre@.young_objs@) by {
                assert forall|i: int| 0 <= i < pre@.young_objs@.len()
                    implies #[trigger] self.young_objs@[i] == pre@.young_objs@[i] by {
                    assert(!pre@.young_objs@[i].header.marked);
                }
            }
            assert(self.old_objs@ =~= pre@.old_objs@) by {
                assert forall|i: int| 0 <= i < pre@.old_objs@.len()
                    implies #[trigger] self.old_objs@[i] == pre@.old_objs@[i] by {
                    assert(!pre@.old_objs@[i].header.marked);
                }
            }
            assert(self.large_objs@ =~= pre@.large_objs@) by {
                assert forall|i: int| 0 <= i < pre@.large_objs@.len()
                    implies #[trigger] self.large_objs@[i] == pre@.large_objs@[i] by {
                    assert(!pre@.large_objs@[i].header.marked);
                }
            }
        }
    }
}

/// The full-collection driver: carries the root set the runtime supplied
/// for this cycle, the trigger reason, the configured heap bounds, and —
/// after a successful cycle — the relocation table of every moved object.
pub struct FullSweepCollector {
    pub rootset: Vec<Address>,
    pub reason: crate::space::GcReason,
    pub min_heap_size: usize,
    pub max_heap_size: usize,
    pub relocations: Vec<(Address, Address)>,
}

impl FullSweepCollector {
    pub fn new(
        rootset: Vec<Address>,
        reason: crate::space::GcReason,
        min_heap_size: usize,
        max_heap_size: usize,
    ) -> (r: FullSweepCollector)
        ensures
            r.rootset == rootset,
            r.reason == reason,
            r.min_heap_size == min_heap_size,
            r.max_heap_size == max_heap_size,
            r.relocations@.len() == 0,
    {
        FullSweepCollector {
            rootset,
            reason,
            min_heap_size,
            max_heap_size,
            relocations: Vec::new(),
        }
    }

    /// Runs one full cycle over `heap`. On success the root set is rewritten
    /// to the survivors' new addresses and `relocations` records every move;
    /// on out-of-memory the heap and roots are exactly as before.
    pub fn collect(&mut self, heap: &mut Heap) -> (r: Result<(), crate::space::GcError>)
        requires
            old(heap).wf(),
            forall|k: int| 0 <= k < old(self).rootset@.len()
                ==> old(heap).valid_ref(#[trigger] old(self).rootset@[k]),
        ensures
            final(heap).classes@ == old(heap).classes@,
            final(heap).vtables@ == old(heap).vtables@,
            final(self).rootset@.len() == old(self).rootset@.len(),
            match r {
                Ok(()) => {
                    &&& final(heap).young_objs@.len() == 0
                    &&& forall|c: int| 0 <= c < final(heap).card_table.spec_len()
                        ==> !final(heap).card_table.dirty@[c]
                    &&& final(self).relocations@.len() == final(heap).old_objs@.len()
                    &&& forall|k: int| 0 <= k < final(self).relocations@.len()
                        ==> final(heap).old_objs@[k].address
                            == (#[trigger] final(self).relocations@[k]).1
                    &&& forall|k: int| 0 <= k < old(self).rootset@.len()
                        ==> (((#[trigger] old(self).rootset@[k]).0 == 0)
                            == (final(self).rootset@[k].0 == 0))
                    &&& forall|k: int| 0 <= k < old(self).rootset@.len()
                        && (#[trigger] old(self).rootset@[k]).0 != 0
                        ==> resolved_to(final(self).relocations@, old(self).rootset@[k],
                            final(self).rootset@[k])
                    &&& forall|k: int| 0 <= k < final(heap).old_objs@.len()
                        ==> ((#[trigger] final(heap).old_objs@[k]).header.vtable is Pointer)
                            && !final(heap).old_objs@[k].header.marked
                    &&& forall|k: int| 0 <= k < final(heap).large_objs@.len()
                        ==> ((#[trigger] final(heap).large_objs@[k]).header.vtable
                                is Pointer)
                            && !final(heap).large_objs@[k].header.marked
                    &&& exists|m: Heap| #[trigger] marking_of(*old(heap),
                            old(self).rootset@, m)
                        && survivors_fit(m)
                        && collection_outcome(m, *final(heap), final(self).relocations@)
                },
                Err(_) => {
                    &&& final(heap).wf()
                    &&& final(heap).young_objs@ == old(heap).young_objs@
                    &&& final(heap).old_objs@ == old(heap).old_objs@
                    &&& final(heap).large_objs@ == old(heap).large_objs@
                    &&& final(self).rootset@ == old(self).rootset@
                },
            },
    {
        match heap.collect_garbage(&mut self.rootset, self.reason) {
            Ok(reloc) => {
                self.relocations = reloc;
                Ok(())
            },
            Err(e) => Err(e),
        }
    }
}

} // verus!