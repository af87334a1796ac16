//! The collector of the modeled guest interpreter.
//!
//! A full collection pass computes the set of heap slots reachable from
//! the roots — the arena and the global constants — and reclaims every
//! other slot. The pass is specified exactly: the set of surviving slots
//! is the *least* set that contains every root and is closed under heap
//! references, so nothing reachable is ever reclaimed and nothing
//! unreachable ever survives. Reclaiming a boxed-host-data slot finalizes
//! its payload, exactly once.
//!
//! Collection passes are invoked by the host at safe points between
//! checkpoints, never while a checkpoint that roots in-flight values is
//! open; nothing here enforces that scheduling, but the contracts show
//! that whatever is rooted when a pass runs survives it untouched.

use vstd::prelude::*;

use crate::interp::{Global, HeapSlot, Interp, slot_wf, val_wf, payloads_injective, refs_below};
use crate::value::Value;

verus! {

/// The roots a collection pass traces from: every arena entry followed by
/// every global constant's value.
pub open spec fn gc_roots(interp: Interp) -> Seq<Value> {
    interp.arena@ + interp.globals@.map_values(|g: Global| g.value)
}

/// Whether the heap reference of `v`, if any, lies in `m`.
pub open spec fn ref_in(v: Value, m: Set<int>) -> bool {
    match v.heap_id() {
        Some(id) => m.contains(id),
        None => true,
    }
}

/// Whether every root's heap reference lies in `m`.
pub open spec fn roots_in(roots: Seq<Value>, m: Set<int>) -> bool {
    forall|k: int| 0 <= k < roots.len() ==> ref_in(#[trigger] roots[k], m)
}

/// Whether every reference out of `slot` lies in `m`.
pub open spec fn slot_refs_in(slot: HeapSlot, m: Set<int>) -> bool {
    match slot {
        HeapSlot::Array { items } => forall|j: int|
            0 <= j < items@.len() ==> ref_in(#[trigger] items@[j], m),
        HeapSlot::Object { class_name, args } => forall|j: int|
            0 <= j < args@.len() ==> ref_in(#[trigger] args@[j], m),
        _ => true,
    }
}

/// Whether `m` is closed under heap references: no reference leads out of
/// `m`.
pub open spec fn closed_under(heap: Seq<HeapSlot>, m: Set<int>) -> bool {
    forall|i: int|
        #[trigger] m.contains(i) && 0 <= i < heap.len() ==> slot_refs_in(heap[i], m)
}

/// Whether payload `p` belongs to a boxed-object slot that a pass keeping
/// exactly the slots in `m` reclaims.
pub open spec fn swept_payload(heap: Seq<HeapSlot>, m: Set<int>, p: int) -> bool {
    exists|i: int|
        0 <= i < heap.len() && !m.contains(i) && #[trigger] heap[i] is Data
            && heap[i]->Data_payload == p
}

/// What a full collection pass does, with `m` the set of surviving slots:
/// `m` is the least root-containing, reference-closed set; slots in `m`
/// are untouched, slots outside it are freed; the payload of every
/// reclaimed boxed object is finalized, and no other payload is touched.
pub open spec fn gc_outcome(pre: Interp, post: Interp, m: Set<int>) -> bool {
    &&& roots_in(gc_roots(pre), m)
    &&& closed_under(pre.heap@, m)
    &&& forall|m2: Set<int>|
        roots_in(gc_roots(pre), m2) && #[trigger] closed_under(pre.heap@, m2) ==> m.subset_of(m2)
    &&& post.heap@.len() == pre.heap@.len()
    &&& forall|i: int|
        0 <= i < pre.heap@.len() && m.contains(i) ==> post.heap@[i] == pre.heap@[i]
    &&& forall|i: int|
        0 <= i < pre.heap@.len() && !m.contains(i) ==> post.heap@[i] is Free
    &&& post.boxed@.len() == pre.boxed@.len()
    &&& forall|p: int|
        0 <= p < pre.boxed@.len() ==> ((#[trigger] post.boxed@[p]).finalized <==> (
        pre.boxed@[p].finalized || swept_payload(pre.heap@, m, p)))
    &&& forall|p: int|
        0 <= p < pre.boxed@.len() && !swept_payload(pre.heap@, m, p) ==> #[trigger] post.boxed@[p]
            == pre.boxed@[p]
}

/// Whether the reference of `v`, if any, is marked or still waiting on the
/// mark stack.
pub open spec fn covered(v: Value, marked: Seq<bool>, st: Seq<usize>) -> bool {
    match v.heap_id() {
        Some(id) => marked[id] || st.contains(id as usize),
        None => true,
    }
}

/// Whether every reference out of `slot` is marked or on the mark stack.
pub open spec fn slot_covered(slot: HeapSlot, marked: Seq<bool>, st: Seq<usize>) -> bool {
    match slot {
        HeapSlot::Array { items } => forall|j: int|
            0 <= j < items@.len() ==> covered(#[trigger] items@[j], marked, st),
        HeapSlot::Object { class_name, args } => forall|j: int|
            0 <= j < args@.len() ==> covered(#[trigger] args@[j], marked, st),
        _ => true,
    }
}

/// Whether `slot` has a reference to heap slot `id`.
pub open spec fn slot_has_ref(slot: HeapSlot, id: int) -> bool {
    match slot {
        HeapSlot::Array { items } => exists|j: int|
            0 <= j < items@.len() && (#[trigger] items@[j]).heap_id() == Some(id),
        HeapSlot::Object { class_name, args } => exists|j: int|
            0 <= j < args@.len() && (#[trigger] args@[j]).heap_id() == Some(id),
        _ => false,
    }
}

/// How many entries of `s` are still false: the termination measure of the
/// mark loop.
pub open spec fn count_false(s: Seq<bool>) -> nat
    decreases s.len(),
{
    if s.len() == 0 {
        0
    } else {
        count_false(s.drop_last()) + if s.last() {
            0nat
        } else {
            1nat
        }
    }
}

/// Setting a false entry to true decreases `count_false` by one.
proof fn lemma_count_false_update(s: Seq<bool>, j: int)
    requires
        0 <= j < s.len(),
        !s[j],
    ensures
        count_false(s.update(j, true)) + 1 == count_false(s),
    decreases s.len(),
{
    let s2 = s.update(j, true);
    if j == s.len() - 1 {
        assert(s2.drop_last() =~= s.drop_last());
    } else {
        assert(s2.drop_last() =~= s.drop_last().update(j, true));
        assert(s2.last() == s.last());
        lemma_count_false_update(s.drop_last(), j);
    }
}

/// Coverage is monotone: marking more slots and keeping every stack entry
/// preserves it.
proof fn lemma_covered_mono(v: Value, m1: Seq<bool>, m2: Seq<bool>, s1: Seq<usize>, s2: Seq<usize>)
    requires
        m1.len() == m2.len(),
        forall|i: int| 0 <= i < m1.len() && m1[i] ==> m2[i],
        forall|x: usize| s1.contains(x) ==> s2.contains(x),
        covered(v, m1, s1),
        v.heap_id() matches Some(id) ==> 0 <= id < m1.len(),
    ensures
        covered(v, m2, s2),
{
}

/// Whether every entry of the mark stack lies below `n`.
pub open spec fn stack_bounded(st: Seq<usize>, n: int) -> bool {
    forall|t: int| 0 <= t < st.len() ==> #[trigger] st[t] < n
}

/// Whether every entry of the mark stack lies in `m2`.
pub open spec fn stack_in(st: Seq<usize>, m2: Set<int>) -> bool {
    forall|t: int| 0 <= t < st.len() ==> m2.contains(#[trigger] st[t] as int)
}

/// Whether every marked slot lies in `m2`.
pub open spec fn marked_in(marked: Seq<bool>, m2: Set<int>) -> bool {
    forall|i: int| 0 <= i < marked.len() && #[trigger] marked[i] ==> m2.contains(i)
}

/// Pushing onto a stack keeps every entry it contains.
proof fn lemma_push_contains(s: Seq<usize>, x: usize)
    ensures
        forall|y: usize| s.contains(y) ==> #[trigger] s.push(x).contains(y),
        s.push(x).contains(x),
{
    assert forall|y: usize| s.contains(y) implies #[trigger] s.push(x).contains(y) by {
        let w = choose|w: int| 0 <= w < s.len() && s[w] == y;
        assert(s.push(x)[w] == y);
    }
    assert(s.push(x)[s.len() as int] == x);
}

/// A stack extension (the old stack as a prefix) keeps every entry the old
/// stack contains.
proof fn lemma_prefix_contains(s1: Seq<usize>, s2: Seq<usize>)
    requires
        s2.len() >= s1.len(),
        s2.subrange(0, s1.len() as int) == s1,
    ensures
        forall|y: usize| s1.contains(y) ==> #[trigger] s2.contains(y),
{
    assert forall|y: usize| s1.contains(y) implies #[trigger] s2.contains(y) by {
        let w = choose|w: int| 0 <= w < s1.len() && s1[w] == y;
        assert(s2.subrange(0, s1.len() as int)[w] == y);
        assert(s2[w] == y);
    }
}

/// Popping the top of the mark stack preserves coverage, provided the
/// popped slot is marked.
proof fn lemma_covered_pop(v: Value, marked: Seq<bool>, st: Seq<usize>)
    requires
        st.len() > 0,
        0 <= st.last() < marked.len(),
        marked[st.last() as int],
        covered(v, marked, st),
    ensures
        covered(v, marked, st.drop_last()),
{
    match v.heap_id() {
        Some(id) => {
            if !marked[id] {
                let w = choose|w: int| 0 <= w < st.len() && st[w] == id as usize;
                if w == st.len() - 1 {
                    assert(marked[id]);
                } else {
                    assert(st.drop_last()[w] == id as usize);
                }
            }
        },
        None => {},
    }
}

/// Gather the heap references of `slot` onto the mark stack: existing
/// entries stay in place, every reference of `slot` ends up covered, and
/// each new entry is a reference of `slot`.
fn gather_children(slot: &HeapSlot, stack: &mut Vec<usize>, Ghost(bound): Ghost<int>)
    requires
        forall|id: int| slot_has_ref(*slot, id) ==> 0 <= id < bound,
    ensures
        final(stack)@.len() >= old(stack)@.len(),
        final(stack)@.subrange(0, old(stack)@.len() as int) == old(stack)@,
        forall|marked: Seq<bool>| slot_covered(*slot, marked, final(stack)@),
        forall|k: int|
            old(stack)@.len() <= k < final(stack)@.len() ==> slot_has_ref(
                *slot,
                #[trigger] final(stack)@[k] as int,
            ),
{
    let ghost len0 = stack@.len() as int;
    match slot {
        HeapSlot::Array { items } => {
            let mut j: usize = 0;
            while j < items.len()
                invariant
                    0 <= j <= items@.len(),
                    stack@.len() >= len0,
                    stack@.subrange(0, len0) == old(stack)@,
                    old(stack)@.len() == len0,
                    forall|id: int| slot_has_ref(HeapSlot::Array { items: *items }, id) ==> 0 <= id < bound,
                    forall|jj: int|
                        0 <= jj < j ==> (match (#[trigger] items@[jj]).heap_id() {
                            Some(id) => stack@.contains(id as usize),
                            None => true,
                        }),
                    forall|k: int|
                        len0 <= k < stack@.len() ==> slot_has_ref(
                            HeapSlot::Array { items: *items },
                            #[trigger] stack@[k] as int,
                        ),
                decreases items@.len() - j,
            {
                let ghost st_pre = stack@;
                if let Some(c) = items[j].heap_index() {
                    stack.push(c);
                    proof {
                        assert(stack@.subrange(0, len0) =~= st_pre.subrange(0, len0));
                        assert(stack@[stack@.len() - 1] == c);
                        assert(items@[j as int].heap_id() == Some(c as int));
                        assert(slot_has_ref(HeapSlot::Array { items: *items }, c as int));
                        assert forall|jj: int| 0 <= jj < j + 1 implies (match (
                        #[trigger] items@[jj]).heap_id() {
                            Some(id) => stack@.contains(id as usize),
                            None => true,
                        }) by {
                            if jj < j {
                                match items@[jj].heap_id() {
                                    Some(id) => {
                                        let w = choose|w: int|
                                            0 <= w < st_pre.len() && st_pre[w] == id as usize;
                                        assert(stack@[w] == id as usize);
                                    },
                                    None => {},
                                }
                            } else {
                                assert(stack@[stack@.len() - 1] == c);
                            }
                        }
                    }
                }
                j = j + 1;
            }
            proof {
                assert forall|marked: Seq<bool>| slot_covered(
                    HeapSlot::Array { items: *items },
                    marked,
                    stack@,
                ) by {
                    assert forall|jj: int| 0 <= jj < items@.len() implies covered(
                        #[trigger] items@[jj],
                        marked,
                        stack@,
                    ) by {}
                }
            }
        },
        HeapSlot::Object { class_name, args } => {
            let mut j: usize = 0;
            while j < args.len()
                invariant
                    0 <= j <= args@.len(),
                    stack@.len() >= len0,
                    stack@.subrange(0, len0) == old(stack)@,
                    old(stack)@.len() == len0,
                    forall|jj: int|
                        0 <= jj < j ==> (match (#[trigger] args@[jj]).heap_id() {
                            Some(id) => stack@.contains(id as usize),
                            None => true,
                        }),
                    forall|k: int|
                        len0 <= k < stack@.len() ==> slot_has_ref(
                            HeapSlot::Object { class_name: *class_name, args: *args },
                            #[trigger] stack@[k] as int,
                        ),
                decreases args@.len() - j,
            {
                let ghost st_pre = stack@;
                if let Some(c) = args[j].heap_index() {
                    stack.push(c);
                    proof {
                        assert(stack@.subrange(0, len0) =~= st_pre.subrange(0, len0));
                        assert(stack@[stack@.len() - 1] == c);
                        assert(args@[j as int].heap_id() == Some(c as int));
                        assert(slot_has_ref(
                            HeapSlot::Object { class_name: *class_name, args: *args },
                            c as int,
                        ));
                        assert forall|jj: int| 0 <= jj < j + 1 implies (match (
                        #[trigger] args@[jj]).heap_id() {
                            Some(id) => stack@.contains(id as usize),
                            None => true,
                        }) by {
                            if jj < j {
                                match args@[jj].heap_id() {
                                    Some(id) => {
                                        let w = choose|w: int|
                                            0 <= w < st_pre.len() && st_pre[w] == id as usize;
                                        assert(stack@[w] == id as usize);
                                    },
                                    None => {},
                                }
                            } else {
                                assert(stack@[stack@.len() - 1] == c);
                            }
                        }
                    }
                }
                j = j + 1;
            }
            proof {
                assert forall|marked: Seq<bool>| slot_covered(
                    HeapSlot::Object { class_name: *class_name, args: *args },
                    marked,
                    stack@,
                ) by {
                    assert forall|jj: int| 0 <= jj < args@.len() implies covered(
                        #[trigger] args@[jj],
                        marked,
                        stack@,
                    ) by {}
                }
            }
        },
        _ => {
            proof {
                assert(stack@.subrange(0, len0) =~= stack@);
            }
        },
    }
}

/// Whether payload `p` belongs to a boxed-object slot among the first `i`
/// slots that the sweep reclaims.
pub open spec fn swept_prefix(heap: Seq<HeapSlot>, marked: Seq<bool>, i: int, p: int) -> bool {
    exists|j: int|
        0 <= j < i && !marked[j] && #[trigger] heap[j] is Data && heap[j]->Data_payload == p
}

impl Interp {
    /// Run a full collection pass: compute the least root-containing,
    /// reference-closed set of heap slots and reclaim everything outside
    /// it, finalizing the payload of every reclaimed boxed object exactly
    /// once. The arena, globals, class table and symbol table are
    /// untouched, and every rooted value survives unchanged.
    #[verifier::rlimit(60)]
    pub fn full_gc(&mut self)
        requires
            old(self).wf(),
        ensures
            final(self).arena == old(self).arena,
            final(self).globals == old(self).globals,
            final(self).classes == old(self).classes,
            final(self).symbols == old(self).symbols,
            final(self).anomalies == old(self).anomalies,
            final(self).heap@.len() == old(self).heap@.len(),
            final(self).boxed@.len() == old(self).boxed@.len(),
            final(self).wf(),
            exists|m: Set<int>| #[trigger] gc_outcome(*old(self), *final(self), m),
    {
        let n = self.heap.len();
        let ghost roots0 = gc_roots(*old(self));
        let ghost heap0 = self.heap@;
        let ghost boxed0 = self.boxed@;

        let mut marked: Vec<bool> = Vec::new();
        while marked.len() < n
            invariant
                marked@.len() <= n,
                forall|i: int| 0 <= i < marked@.len() ==> !(#[trigger] marked@[i]),
            decreases n - marked@.len(),
        {
            marked.push(false);
        }

        let mut stack: Vec<usize> = Vec::new();
        let mut k: usize = 0;
        while k < self.arena.len()
            invariant
                self == old(self),
                old(self).wf(),
                n == self.heap@.len(),
                heap0 == self.heap@,
                roots0 == gc_roots(*old(self)),
                marked@.len() == n,
                forall|i: int| 0 <= i < n ==> !(#[trigger] marked@[i]),
                0 <= k <= self.arena@.len(),
                stack_bounded(stack@, n as int),
                forall|kk: int| 0 <= kk < k ==> covered(#[trigger] self.arena@[kk], marked@, stack@),
                forall|m2: Set<int>|
                    roots_in(roots0, m2) && #[trigger] closed_under(heap0, m2) ==> stack_in(
                        stack@,
                        m2,
                    ),
            decreases self.arena@.len() - k,
        {
            let ghost st_pre = stack@;
            let root = self.arena[k];
            if let Some(c) = root.heap_index() {
                stack.push(c);
                proof {
                    assert(val_wf(self.heap@, self.arena@[k as int]));
                    lemma_push_contains(st_pre, c);
                    assert forall|kk: int| 0 <= kk < k + 1 implies covered(
                        #[trigger] self.arena@[kk],
                        marked@,
                        stack@,
                    ) by {
                        if kk < k {
                            lemma_covered_mono(self.arena@[kk], marked@, marked@, st_pre, stack@);
                        }
                    }
                    assert forall|m2: Set<int>|
                        roots_in(roots0, m2) && #[trigger] closed_under(heap0, m2) implies stack_in(
                        stack@,
                        m2,
                    ) by {
                        assert(roots0[k as int] == self.arena@[k as int]);
                        assert(ref_in(roots0[k as int], m2));
                        assert forall|t: int| 0 <= t < stack@.len() implies m2.contains(
                            #[trigger] stack@[t] as int,
                        ) by {
                            if t < st_pre.len() {
                                assert(st_pre[t] == stack@[t]);
                            }
                        }
                    }
                }
            }
            k = k + 1;
        }

        let mut k: usize = 0;
        while k < self.globals.len()
            invariant
                self == old(self),
                old(self).wf(),
                n == self.heap@.len(),
                heap0 == self.heap@,
                roots0 == gc_roots(*old(self)),
                marked@.len() == n,
                forall|i: int| 0 <= i < n ==> !(#[trigger] marked@[i]),
                0 <= k <= self.globals@.len(),
                stack_bounded(stack@, n as int),
                forall|kk: int|
                    0 <= kk < self.arena@.len() ==> covered(
                        #[trigger] self.arena@[kk],
                        marked@,
                        stack@,
                    ),
                forall|kk: int|
                    0 <= kk < k ==> covered(#[trigger] self.globals@[kk].value, marked@, stack@),
                forall|m2: Set<int>|
                    roots_in(roots0, m2) && #[trigger] closed_under(heap0, m2) ==> stack_in(
                        stack@,
                        m2,
                    ),
            decreases self.globals@.len() - k,
        {
            let ghost st_pre = stack@;
            let root = self.globals[k].value;
            if let Some(c) = root.heap_index() {
                stack.push(c);
                proof {
                    assert(val_wf(self.heap@, self.globals@[k as int].value));
                    lemma_push_contains(st_pre, c);
                    assert forall|kk: int| 0 <= kk < self.arena@.len() implies covered(
                        #[trigger] self.arena@[kk],
                        marked@,
                        stack@,
                    ) by {
                        lemma_covered_mono(self.arena@[kk], marked@, marked@, st_pre, stack@);
                    }
                    assert forall|kk: int| 0 <= kk < k + 1 implies covered(
                        #[trigger] self.globals@[kk].value,
                        marked@,
                        stack@,
                    ) by {
                        if kk < k {
                            lemma_covered_mono(
                                self.globals@[kk].value,
                                marked@,
                                marked@,
                                st_pre,
                                stack@,
                            );
                        }
                    }
                    assert forall|m2: Set<int>|
                        roots_in(roots0, m2) && #[trigger] closed_under(heap0, m2) implies stack_in(
                        stack@,
                        m2,
                    ) by {
                        let kr = self.arena@.len() + k;
                        assert(roots0[kr as int] == self.globals@.map_values(
                            |g: Global| g.value,
                        )[k as int]);
                        assert(ref_in(roots0[kr as int], m2));
                        assert forall|t: int| 0 <= t < stack@.len() implies m2.contains(
                            #[trigger] stack@[t] as int,
                        ) by {
                            if t < st_pre.len() {
                                assert(st_pre[t] == stack@[t]);
                            }
                        }
                    }
                }
            }
            k = k + 1;
        }

        proof {
            assert forall|kk: int| 0 <= kk < roots0.len() implies covered(
                #[trigger] roots0[kk],
                marked@,
                stack@,
            ) by {
                if kk < self.arena@.len() {
                    assert(roots0[kk] == self.arena@[kk]);
                } else {
                    assert(roots0[kk] == self.globals@.map_values(|g: Global| g.value)[kk
                        - self.arena@.len()]);
                    assert(roots0[kk] == self.globals@[kk - self.arena@.len()].value);
                }
            }
        }

        // Mark: pop until the stack drains, marking each slot once and
        // tracing its references.
        while stack.len() > 0
            invariant
                self == old(self),
                old(self).wf(),
                n == self.heap@.len(),
                heap0 == self.heap@,
                roots0 == gc_roots(*old(self)),
                marked@.len() == n,
                stack_bounded(stack@, n as int),
                forall|i: int|
                    0 <= i < n && #[trigger] marked@[i] ==> slot_covered(heap0[i], marked@, stack@),
                forall|kk: int|
                    0 <= kk < roots0.len() ==> covered(#[trigger] roots0[kk], marked@, stack@),
                forall|m2: Set<int>|
                    roots_in(roots0, m2) && #[trigger] closed_under(heap0, m2) ==> marked_in(
                        marked@,
                        m2,
                    ) && stack_in(stack@, m2),
            decreases count_false(marked@), stack@.len(),
        {
            let ghost st_pre = stack@;
            let ghost marked_pre = marked@;
            let id = match stack.pop() {
                Some(id) => id,
                None => unreached(),
            };
            proof {
                assert(st_pre[st_pre.len() - 1] == id);
            }
            if !marked[id] {
                marked[id] = true;
                proof {
                    lemma_count_false_update(marked_pre, id as int);
                    // Every covered reference stays covered after marking
                    // the popped slot.
                    assert forall|i: int|
                        0 <= i < n && #[trigger] marked@[i] && i != id as int implies slot_covered(
                        heap0[i],
                        marked@,
                        stack@,
                    ) by {
                        assert(slot_covered(heap0[i], marked_pre, st_pre));
                        assert(slot_wf(heap0, old(self).boxed@, old(self).classes@.len() as int, i));
                        match heap0[i] {
                            HeapSlot::Array { items } => {
                                assert forall|j: int| 0 <= j < items@.len() implies covered(
                                    #[trigger] items@[j],
                                    marked@,
                                    stack@,
                                ) by {
                                    assert(val_wf(heap0, items@[j]));
                                    lemma_covered_mono(
                                        items@[j],
                                        marked_pre,
                                        marked@,
                                        st_pre,
                                        st_pre,
                                    );
                                    lemma_covered_pop(items@[j], marked@, st_pre);
                                }
                            },
                            HeapSlot::Object { class_name, args } => {
                                assert forall|j: int| 0 <= j < args@.len() implies covered(
                                    #[trigger] args@[j],
                                    marked@,
                                    stack@,
                                ) by {
                                    assert(val_wf(heap0, args@[j]));
                                    lemma_covered_mono(args@[j], marked_pre, marked@, st_pre, st_pre);
                                    lemma_covered_pop(args@[j], marked@, st_pre);
                                }
                            },
                            _ => {},
                        }
                    }
                    assert forall|kk: int| 0 <= kk < roots0.len() implies covered(
                        #[trigger] roots0[kk],
                        marked@,
                        stack@,
                    ) by {
                        match roots0[kk].heap_id() {
                            Some(rid) => {
                                if kk < self.arena@.len() {
                                    assert(val_wf(heap0, self.arena@[kk]));
                                } else {
                                    assert(roots0[kk] == self.globals@.map_values(
                                        |g: Global| g.value,
                                    )[kk - self.arena@.len()]);
                                    assert(val_wf(
                                        heap0,
                                        self.globals@[kk - self.arena@.len()].value,
                                    ));
                                }
                                lemma_covered_mono(roots0[kk], marked_pre, marked@, st_pre, st_pre);
                                lemma_covered_pop(roots0[kk], marked@, st_pre);
                            },
                            None => {},
                        }
                    }
                }
                let ghost st_mid = stack@;
                let ghost marked_mid = marked@;
                let slot = &self.heap[id];
                proof {
                    assert(slot_wf(heap0, self.boxed@, self.classes@.len() as int, id as int));
                    assert forall|rid: int| slot_has_ref(heap0[id as int], rid) implies 0 <= rid
                        < n as int by {
                        match heap0[id as int] {
                            HeapSlot::Array { items } => {
                                let j = choose|j: int|
                                    0 <= j < items@.len() && (#[trigger] items@[j]).heap_id()
                                        == Some(rid);
                                assert(val_wf(heap0, items@[j]));
                            },
                            HeapSlot::Object { class_name, args } => {
                                let j = choose|j: int|
                                    0 <= j < args@.len() && (#[trigger] args@[j]).heap_id() == Some(
                                        rid,
                                    );
                                assert(val_wf(heap0, args@[j]));
                            },
                            _ => {},
                        }
                    }
                }
                gather_children(slot, &mut stack, Ghost(n as int));
                proof {
                    lemma_prefix_contains(st_mid, stack@);
                    // Stack entries stay bounded: the new ones are
                    // references of a well-formed slot.
                    assert forall|t: int| 0 <= t < stack@.len() implies #[trigger] stack@[t]
                        < n by {
                        if t < st_mid.len() {
                            assert(stack@[t] == st_mid[t]);
                        } else {
                            assert(slot_has_ref(heap0[id as int], stack@[t] as int));
                        }
                    }
                    // Previously marked slots stay covered under the
                    // extended stack; the freshly marked slot is covered by
                    // gather_children's contract.
                    assert forall|i: int|
                        0 <= i < n && #[trigger] marked@[i] implies slot_covered(
                        heap0[i],
                        marked@,
                        stack@,
                    ) by {
                        if i == id as int {
                            assert(slot_covered(heap0[i], marked@, stack@));
                        } else {
                            assert(slot_covered(heap0[i], marked_mid, st_mid));
                            assert(slot_wf(heap0, old(self).boxed@, old(self).classes@.len() as int, i));
                            match heap0[i] {
                                HeapSlot::Array { items } => {
                                    assert forall|j: int| 0 <= j < items@.len() implies covered(
                                        #[trigger] items@[j],
                                        marked@,
                                        stack@,
                                    ) by {
                                        assert(val_wf(heap0, items@[j]));
                                        lemma_covered_mono(
                                            items@[j],
                                            marked_mid,
                                            marked@,
                                            st_mid,
                                            stack@,
                                        );
                                    }
                                },
                                HeapSlot::Object { class_name, args } => {
                                    assert forall|j: int| 0 <= j < args@.len() implies covered(
                                        #[trigger] args@[j],
                                        marked@,
                                        stack@,
                                    ) by {
                                        assert(val_wf(heap0, args@[j]));
                                        lemma_covered_mono(
                                            args@[j],
                                            marked_mid,
                                            marked@,
                                            st_mid,
                                            stack@,
                                        );
                                    }
                                },
                                _ => {},
                            }
                        }
                    }
                    assert forall|kk: int| 0 <= kk < roots0.len() implies covered(
                        #[trigger] roots0[kk],
                        marked@,
                        stack@,
                    ) by {
                        match roots0[kk].heap_id() {
                            Some(rid) => {
                                if kk < self.arena@.len() {
                                    assert(val_wf(heap0, self.arena@[kk]));
                                } else {
                                    assert(roots0[kk] == self.globals@.map_values(
                                        |g: Global| g.value,
                                    )[kk - self.arena@.len()]);
                                    assert(val_wf(
                                        heap0,
                                        self.globals@[kk - self.arena@.len()].value,
                                    ));
                                }
                                lemma_covered_mono(roots0[kk], marked_mid, marked@, st_mid, stack@);
                            },
                            None => {},
                        }
                    }
                    // Minimality: the marked slot was on the stack, so
                    // every admissible set holds it; its references follow
                    // by closure.
                    assert forall|m2: Set<int>|
                        roots_in(roots0, m2) && #[trigger] closed_under(heap0, m2) implies marked_in(
                        marked@,
                        m2,
                    ) && stack_in(stack@, m2) by {
                        assert(marked_in(marked_pre, m2) && stack_in(st_pre, m2));
                        assert(m2.contains(st_pre[st_pre.len() - 1] as int));
                        assert(m2.contains(id as int));
                        assert(slot_refs_in(heap0[id as int], m2));
                        assert forall|t: int| 0 <= t < stack@.len() implies m2.contains(
                            #[trigger] stack@[t] as int,
                        ) by {
                            if t < st_mid.len() {
                                assert(stack@[t] == st_mid[t]);
                                assert(st_mid[t] == st_pre[t]);
                            } else {
                                let rid = stack@[t] as int;
                                assert(slot_has_ref(heap0[id as int], rid));
                                match heap0[id as int] {
                                    HeapSlot::Array { items } => {
                                        let j = choose|j: int|
                                            0 <= j < items@.len() && (
                                            #[trigger] items@[j]).heap_id() == Some(rid);
                                        assert(ref_in(items@[j], m2));
                                    },
                                    HeapSlot::Object { class_name, args } => {
                                        let j = choose|j: int|
                                            0 <= j < args@.len() && (#[trigger] args@[j]).heap_id()
                                                == Some(rid);
                                        assert(ref_in(args@[j], m2));
                                    },
                                    _ => {},
                                }
                            }
                        }
                    }
                }
            } else {
                proof {
                    assert forall|i: int|
                        0 <= i < n && #[trigger] marked@[i] implies slot_covered(
                        heap0[i],
                        marked@,
                        stack@,
                    ) by {
                        assert(slot_covered(heap0[i], marked_pre, st_pre));
                        match heap0[i] {
                            HeapSlot::Array { items } => {
                                assert forall|j: int| 0 <= j < items@.len() implies covered(
                                    #[trigger] items@[j],
                                    marked@,
                                    stack@,
                                ) by {
                                    lemma_covered_pop(items@[j], marked@, st_pre);
                                }
                            },
                            HeapSlot::Object { class_name, args } => {
                                assert forall|j: int| 0 <= j < args@.len() implies covered(
                                    #[trigger] args@[j],
                                    marked@,
                                    stack@,
                                ) by {
                                    lemma_covered_pop(args@[j], marked@, st_pre);
                                }
                            },
                            _ => {},
                        }
                    }
                    assert forall|kk: int| 0 <= kk < roots0.len() implies covered(
                        #[trigger] roots0[kk],
                        marked@,
                        stack@,
                    ) by {
                        match roots0[kk].heap_id() {
                            Some(rid) => {
                                if kk < self.arena@.len() {
                                    assert(val_wf(heap0, self.arena@[kk]));
                                } else {
                                    assert(roots0[kk] == self.globals@.map_values(
                                        |g: Global| g.value,
                                    )[kk - self.arena@.len()]);
                                    assert(val_wf(
                                        heap0,
                                        self.globals@[kk - self.arena@.len()].value,
                                    ));
                                }
                                lemma_covered_pop(roots0[kk], marked@, st_pre);
                            },
                            None => {},
                        }
                    }
                }
            }
        }

        // The marked set is exactly the least admissible survivor set.
        let ghost m = Set::new(|i: int| 0 <= i < n as int && marked@[i]);
        proof {
            assert forall|kk: int| 0 <= kk < roots0.len() implies ref_in(
                #[trigger] roots0[kk],
                m,
            ) by {
                match roots0[kk].heap_id() {
                    Some(rid) => {
                        if kk < self.arena@.len() {
                            assert(val_wf(heap0, self.arena@[kk]));
                        } else {
                            assert(roots0[kk] == self.globals@.map_values(|g: Global| g.value)[kk
                                - self.arena@.len()]);
                            assert(val_wf(heap0, self.globals@[kk - self.arena@.len()].value));
                        }
                        assert(covered(roots0[kk], marked@, stack@));
                    },
                    None => {},
                }
            }
            assert(roots_in(roots0, m));
            assert forall|i: int| #[trigger] m.contains(i) && 0 <= i < heap0.len() implies slot_refs_in(
                heap0[i],
                m,
            ) by {
                assert(marked@[i]);
                assert(slot_covered(heap0[i], marked@, stack@));
                assert(slot_wf(heap0, old(self).boxed@, old(self).classes@.len() as int, i));
                match heap0[i] {
                    HeapSlot::Array { items } => {
                        assert forall|j: int| 0 <= j < items@.len() implies ref_in(
                            #[trigger] items@[j],
                            m,
                        ) by {
                            assert(covered(items@[j], marked@, stack@));
                            assert(val_wf(heap0, items@[j]));
                        }
                    },
                    HeapSlot::Object { class_name, args } => {
                        assert forall|j: int| 0 <= j < args@.len() implies ref_in(
                            #[trigger] args@[j],
                            m,
                        ) by {
                            assert(covered(args@[j], marked@, stack@));
                            assert(val_wf(heap0, args@[j]));
                        }
                    },
                    _ => {},
                }
            }
            assert(closed_under(heap0, m));
        }
        let ghost marked_fin = marked@;

        // Sweep: free every unmarked slot, finalizing boxed payloads.
        let mut i: usize = 0;
        while i < n
            invariant
                old(self).wf(),
                n == old(self).heap@.len(),
                heap0 == old(self).heap@,
                boxed0 == old(self).boxed@,
                roots0 == gc_roots(*old(self)),
                marked@ == marked_fin,
                marked@.len() == n,
                0 <= i <= n,
                self.heap@.len() == n,
                self.boxed@.len() == boxed0.len(),
                self.arena == old(self).arena,
                self.globals == old(self).globals,
                self.classes == old(self).classes,
                self.symbols == old(self).symbols,
                self.anomalies == old(self).anomalies,
                forall|j: int| i <= j < n ==> self.heap@[j] == heap0[j],
                forall|j: int| 0 <= j < i && marked_fin[j] ==> self.heap@[j] == heap0[j],
                forall|j: int| 0 <= j < i && !marked_fin[j] ==> self.heap@[j] is Free,
                forall|p: int|
                    0 <= p < boxed0.len() && swept_prefix(heap0, marked_fin, i as int, p)
                        ==> (#[trigger] self.boxed@[p]).finalized,
                forall|p: int|
                    0 <= p < boxed0.len() && !swept_prefix(heap0, marked_fin, i as int, p)
                        ==> #[trigger] self.boxed@[p] == boxed0[p],
            decreases n - i,
        {
            let ghost sweep_pre = *self;
            if !marked[i] {
                let payload_opt: Option<usize> = match &self.heap[i] {
                    HeapSlot::Data { payload, .. } => Some(*payload),
                    _ => None,
                };
                if let Some(p) = payload_opt {
                    proof {
                        assert(heap0[i as int] is Data);
                        assert(heap0[i as int]->Data_payload == p as int);
                        assert(slot_wf(
                            heap0,
                            boxed0,
                            old(self).classes@.len() as int,
                            i as int,
                        ));
                        assert(p < boxed0.len());
                        // The payload cannot have been finalized by an
                        // earlier sweep step: payloads are injective across
                        // live boxed objects.
                        assert(!swept_prefix(heap0, marked_fin, i as int, p as int)) by {
                            if swept_prefix(heap0, marked_fin, i as int, p as int) {
                                let j = choose|j: int|
                                    0 <= j < i && !marked_fin[j] && #[trigger] heap0[j] is Data
                                        && heap0[j]->Data_payload == p as int;
                                assert(payloads_injective(heap0));
                                assert(heap0[j]->Data_payload != heap0[i as int]->Data_payload);
                            }
                        }
                        assert(self.boxed@[p as int] == boxed0[p as int]);
                        assert(!boxed0[p as int].finalized);
                    }
                    self.finalize_payload(p);
                }
                self.heap[i] = HeapSlot::Free;
                proof {
                    assert forall|p2: int|
                        0 <= p2 < boxed0.len() && swept_prefix(
                            heap0,
                            marked_fin,
                            i as int + 1,
                            p2,
                        ) implies (#[trigger] self.boxed@[p2]).finalized by {
                        let j = choose|j: int|
                            0 <= j < i + 1 && !marked_fin[j] && #[trigger] heap0[j] is Data
                                && heap0[j]->Data_payload == p2;
                        if j < i {
                            assert(swept_prefix(heap0, marked_fin, i as int, p2));
                            assert(sweep_pre.boxed@[p2].finalized);
                            match payload_opt {
                                Some(p) => {
                                    if p2 == p as int {
                                    } else {
                                        assert(self.boxed@[p2] == sweep_pre.boxed@[p2]);
                                    }
                                },
                                None => {
                                    assert(self.boxed@[p2] == sweep_pre.boxed@[p2]);
                                },
                            }
                        } else {
                            assert(j == i as int);
                            assert(heap0[i as int] is Data);
                            assert(payload_opt == Some(heap0[i as int]->Data_payload as usize));
                        }
                    }
                    assert forall|p2: int|
                        0 <= p2 < boxed0.len() && !swept_prefix(
                            heap0,
                            marked_fin,
                            i as int + 1,
                            p2,
                        ) implies #[trigger] self.boxed@[p2] == boxed0[p2] by {
                        assert(!swept_prefix(heap0, marked_fin, i as int, p2));
                        match payload_opt {
                            Some(p) => {
                                if p2 == p as int {
                                    assert(swept_prefix(heap0, marked_fin, i as int + 1, p2));
                                } else {
                                    assert(self.boxed@[p2] == sweep_pre.boxed@[p2]);
                                }
                            },
                            None => {},
                        }
                    }
                }
            } else {
                proof {
                    assert forall|p2: int|
                        0 <= p2 < boxed0.len() && swept_prefix(
                            heap0,
                            marked_fin,
                            i as int + 1,
                            p2,
                        ) implies (#[trigger] self.boxed@[p2]).finalized by {
                        let j = choose|j: int|
                            0 <= j < i + 1 && !marked_fin[j] && #[trigger] heap0[j] is Data
                                && heap0[j]->Data_payload == p2;
                        assert(j < i);
                        assert(swept_prefix(heap0, marked_fin, i as int, p2));
                    }
                    assert forall|p2: int|
                        0 <= p2 < boxed0.len() && !swept_prefix(
                            heap0,
                            marked_fin,
                            i as int + 1,
                            p2,
                        ) implies #[trigger] self.boxed@[p2] == boxed0[p2] by {
                        assert(!swept_prefix(heap0, marked_fin, i as int, p2));
                    }
                }
            }
            i = i + 1;
        }

        proof {
            // Tie the sweep bookkeeping to the survivor-set contract.
            assert forall|p: int| 0 <= p < boxed0.len() implies ((
            #[trigger] self.boxed@[p]).finalized <==> (boxed0[p].finalized || swept_payload(
                heap0,
                m,
                p,
            ))) by {
                if swept_payload(heap0, m, p) {
                    let j = choose|j: int|
                        0 <= j < heap0.len() && !m.contains(j) && #[trigger] heap0[j] is Data
                            && heap0[j]->Data_payload == p;
                    assert(swept_prefix(heap0, marked_fin, n as int, p));
                } else {
                    assert(!swept_prefix(heap0, marked_fin, n as int, p)) by {
                        if swept_prefix(heap0, marked_fin, n as int, p) {
                            let j = choose|j: int|
                                0 <= j < n && !marked_fin[j] && #[trigger] heap0[j] is Data
                                    && heap0[j]->Data_payload == p;
                            assert(!m.contains(j));
                            assert(swept_payload(heap0, m, p));
                        }
                    }
                    assert(self.boxed@[p] == boxed0[p]);
                    if boxed0[p].finalized {
                    } else {
                    }
                }
            }
            assert forall|p: int|
                0 <= p < boxed0.len() && !swept_payload(heap0, m, p) implies #[trigger] self.boxed@[p]
                    == boxed0[p] by {
                assert(!swept_prefix(heap0, marked_fin, n as int, p)) by {
                    if swept_prefix(heap0, marked_fin, n as int, p) {
                        let j = choose|j: int|
                            0 <= j < n && !marked_fin[j] && #[trigger] heap0[j] is Data
                                && heap0[j]->Data_payload == p;
                        assert(swept_payload(heap0, m, p));
                    }
                }
            }
            assert(gc_outcome(*old(self), *self, m));

            // Well-formedness of the post-collection state.
            let heap2 = self.heap@;
            let boxed2 = self.boxed@;
            let cl = self.classes@.len() as int;
            assert forall|i2: int| 0 <= i2 < heap2.len() implies slot_wf(heap2, boxed2, cl, i2) by {
                if m.contains(i2) {
                    assert(heap2[i2] == heap0[i2]);
                    assert(slot_wf(heap0, boxed0, cl, i2));
                    assert(slot_refs_in(heap0[i2], m));
                    match heap0[i2] {
                        HeapSlot::Array { items } => {
                            assert forall|j: int| 0 <= j < items@.len() implies val_wf(
                                heap2,
                                #[trigger] items@[j],
                            ) && refs_below(items@[j], i2) by {
                                assert(val_wf(heap0, items@[j]));
                                assert(ref_in(items@[j], m));
                                match items@[j].heap_id() {
                                    Some(rid) => {
                                        assert(m.contains(rid));
                                        assert(heap2[rid] == heap0[rid]);
                                    },
                                    None => {},
                                }
                            }
                        },
                        HeapSlot::Object { class_name, args } => {
                            assert forall|j: int| 0 <= j < args@.len() implies val_wf(
                                heap2,
                                #[trigger] args@[j],
                            ) && refs_below(args@[j], i2) by {
                                assert(val_wf(heap0, args@[j]));
                                assert(ref_in(args@[j], m));
                                match args@[j].heap_id() {
                                    Some(rid) => {
                                        assert(m.contains(rid));
                                        assert(heap2[rid] == heap0[rid]);
                                    },
                                    None => {},
                                }
                            }
                        },
                        HeapSlot::Data { class, payload } => {
                            assert(!swept_payload(heap0, m, payload as int)) by {
                                if swept_payload(heap0, m, payload as int) {
                                    let j = choose|j: int|
                                        0 <= j < heap0.len() && !m.contains(j)
                                            && #[trigger] heap0[j] is Data
                                            && heap0[j]->Data_payload == payload as int;
                                    assert(j != i2);
                                    assert(payloads_injective(heap0));
                                }
                            }
                            assert(boxed2[payload as int] == boxed0[payload as int]);
                        },
                        _ => {},
                    }
                } else {
                    if i2 < n {
                        assert(heap2[i2] is Free);
                    }
                }
            }
            assert forall|k2: int| 0 <= k2 < self.arena@.len() implies val_wf(
                heap2,
                #[trigger] self.arena@[k2],
            ) by {
                assert(val_wf(heap0, self.arena@[k2]));
                assert(roots0[k2] == self.arena@[k2]);
                assert(ref_in(roots0[k2], m));
                match self.arena@[k2].heap_id() {
                    Some(rid) => {
                        assert(heap2[rid] == heap0[rid]);
                    },
                    None => {},
                }
            }
            assert forall|k2: int| 0 <= k2 < self.globals@.len() implies val_wf(
                heap2,
                #[trigger] self.globals@[k2].value,
            ) by {
                assert(val_wf(heap0, self.globals@[k2].value));
                let kr = self.arena@.len() + k2;
                assert(roots0[kr] == self.globals@.map_values(|g: Global| g.value)[k2]);
                assert(ref_in(roots0[kr], m));
                match self.globals@[k2].value.heap_id() {
                    Some(rid) => {
                        assert(heap2[rid] == heap0[rid]);
                    },
                    None => {},
                }
            }
            assert forall|i2: int, j2: int|
                0 <= i2 < heap2.len() && 0 <= j2 < heap2.len() && i2 != j2
                    && #[trigger] heap2[i2] is Data && #[trigger] heap2[j2] is Data implies heap2[i2]->Data_payload
                != heap2[j2]->Data_payload by {
                assert(heap2[i2] == heap0[i2] || heap2[i2] is Free);
                assert(heap2[j2] == heap0[j2] || heap2[j2] is Free);
                assert(payloads_injective(heap0));
            }
        }
    }

    /// Run an incremental collection step. In this model an incremental
    /// step completes the same work as a full pass: the least admissible
    /// survivor set is computed and everything outside it is reclaimed.
    pub fn incremental_gc(&mut self)
        requires
            old(self).wf(),
        ensures
            final(self).arena == old(self).arena,
            final(self).globals == old(self).globals,
            final(self).classes == old(self).classes,
            final(self).symbols == old(self).symbols,
            final(self).anomalies == old(self).anomalies,
            final(self).heap@.len() == old(self).heap@.len(),
            final(self).boxed@.len() == old(self).boxed@.len(),
            final(self).wf(),
            exists|m: Set<int>| #[trigger] gc_outcome(*old(self), *final(self), m),
    {
        self.full_gc()
    }

    /// Tear the interpreter down: drop every root and run a final
    /// collection. Afterwards every heap slot is reclaimed and every live
    /// boxed payload has been finalized.
    pub fn close(&mut self)
        requires
            old(self).wf(),
        ensures
            final(self).arena@.len() == 0,
            final(self).globals@.len() == 0,
            final(self).heap@.len() == old(self).heap@.len(),
            forall|i: int| 0 <= i < final(self).heap@.len() ==> final(self).heap@[i] is Free,
            final(self).boxed@.len() == old(self).boxed@.len(),
            forall|p: int|
                0 <= p < old(self).boxed@.len() ==> ((#[trigger] final(self).boxed@[p]).finalized
                    <==> (old(self).boxed@[p].finalized || swept_payload(
                    old(self).heap@,
                    Set::<int>::empty(),
                    p,
                ))),
            final(self).wf(),
    {
        self.arena.clear();
        self.globals.clear();
        let ghost pre = *self;
        proof {
            assert(pre.wf());
        }
        self.full_gc();
        proof {
            let m = choose|m: Set<int>| #[trigger] gc_outcome(pre, *self, m);
            // With no roots, the empty set is admissible, so the least
            // admissible set is empty and every slot is freed.
            assert(roots_in(gc_roots(pre), Set::<int>::empty()));
            assert(closed_under(pre.heap@, Set::<int>::empty()));
            assert(m.subset_of(Set::<int>::empty()));
            assert forall|i: int| 0 <= i < self.heap@.len() implies self.heap@[i] is Free by {
                assert(!m.contains(i));
            }
            // Payload fates: with the empty survivor set, a payload is
            // finalized exactly when a boxed-object slot held it.
            assert forall|p: int| 0 <= p < pre.boxed@.len() implies ((
            #[trigger] self.boxed@[p]).finalized <==> (pre.boxed@[p].finalized || swept_payload(
                pre.heap@,
                Set::<int>::empty(),
                p,
            ))) by {
                assert(self.boxed@[p].finalized <==> (pre.boxed@[p].finalized || swept_payload(
                    pre.heap@,
                    m,
                    p,
                )));
                if swept_payload(pre.heap@, m, p) {
                    let i = choose|i: int|
                        0 <= i < pre.heap@.len() && !m.contains(i) && #[trigger] pre.heap@[i] is Data
                            && pre.heap@[i]->Data_payload == p;
                    assert(swept_payload(pre.heap@, Set::<int>::empty(), p));
                }
                if swept_payload(pre.heap@, Set::<int>::empty(), p) {
                    let i = choose|i: int|
                        0 <= i < pre.heap@.len() && !Set::<int>::empty().contains(i)
                            && #[trigger] pre.heap@[i] is Data && pre.heap@[i]->Data_payload == p;
                    assert(!m.contains(i));
                    assert(swept_payload(pre.heap@, m, p));
                }
            }
        }
    }
}

} // verus!
