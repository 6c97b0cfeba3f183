//! What holds of the bump allocator over many calls: requests served one
//! after another, with no block returned in between, and the returns that
//! follow them.

use vstd::prelude::*;

verus! {

use crate::bump::{BumpView, NULL, STATIC_HEAP_SIZE};
use crate::util::align::{round_up, lemma_round_up, law_round_up_fixes_multiples, law_round_up_monotone};

/// Every request of `reqs` asks for a positive alignment.
pub open spec fn aligns_positive(reqs: Seq<(nat, nat)>) -> bool {
    forall|i: int| 0 <= i < reqs.len() ==> #[trigger] reqs[i].1 > 0
}

/// One request, seen from the initialised state: the region stays, the
/// cursor does not move back, and a granted block starts at or after the
/// cursor and ends where the cursor then stands.
proof fn lemma_step(w: BumpView, size: nat, align: nat, heap: nat)
    requires
        align > 0,
    ensures
        ({
            let r = w.ready(heap);
            let n = w.after_alloc(size, align, heap);
            &&& n.ready(heap).start == r.start
            &&& n.ready(heap).end == r.end
            &&& r.current <= n.ready(heap).current
            &&& n.initialized || n == w
            &&& w.initialized ==> n.initialized
            &&& r.current <= r.end ==> n.ready(heap).current <= r.end
            &&& w.alloc_fits(size, align, heap) ==> {
                &&& r.current <= w.alloc_addr(size, align, heap)
                &&& n.ready(heap).current == w.alloc_addr(size, align, heap) + size
            }
            &&& !w.alloc_fits(size, align, heap) ==> n.ready(heap).current == r.current
        }),
{
    lemma_round_up(w.ready(heap).current as int, align as int);
}

/// Serving the first `j` requests is serving the first `j - 1` and then
/// request `j - 1`.
proof fn lemma_unfold(v: BumpView, reqs: Seq<(nat, nat)>, heap: nat, j: int)
    requires
        0 < j <= reqs.len(),
    ensures
        v.after_allocs(reqs.take(j), heap) == v.before_request(reqs, heap, j - 1).after_alloc(
            reqs[j - 1].0,
            reqs[j - 1].1,
            heap,
        ),
        v.granted_bytes(reqs.take(j), heap) == v.granted_bytes(reqs.take(j - 1), heap) + if v.request_granted(
            reqs,
            heap,
            j - 1,
        ) {
            reqs[j - 1].0
        } else {
            0
        },
{
    assert(reqs.take(j).drop_last() =~= reqs.take(j - 1));
    assert(reqs.take(j).last() == reqs[j - 1]);
}

/// Between the `i`-th and the `j`-th request the region stays, the cursor
/// moves forward by at least the bytes granted, and never past the end.
proof fn lemma_between(v: BumpView, reqs: Seq<(nat, nat)>, heap: nat, i: int, j: int)
    requires
        0 <= i <= j <= reqs.len(),
        aligns_positive(reqs),
    ensures
        ({
            let a = v.before_request(reqs, heap, i);
            let b = v.before_request(reqs, heap, j);
            &&& b.ready(heap).start == a.ready(heap).start
            &&& b.ready(heap).end == a.ready(heap).end
            &&& a.ready(heap).current <= b.ready(heap).current
            &&& a.ready(heap).current <= a.ready(heap).end ==> b.ready(heap).current <= b.ready(
                heap,
            ).end
            &&& a.initialized ==> b.initialized
            &&& b.initialized || b == a
            &&& v.granted_bytes(reqs.take(j), heap) + a.ready(heap).current <= v.granted_bytes(
                reqs.take(i),
                heap,
            ) + b.ready(heap).current
        }),
    decreases j - i,
{
    if j > i {
        lemma_between(v, reqs, heap, i, j - 1);
        lemma_unfold(v, reqs, heap, j);
        assert(reqs[j - 1].1 > 0);
        lemma_step(v.before_request(reqs, heap, j - 1), reqs[j - 1].0, reqs[j - 1].1, heap);
    }
}

/// Without returns in between, the cursor never moves back and the region
/// never changes: from the `i`-th request to any later one, the initialised
/// state keeps its start and end and its cursor only grows.
pub proof fn law_cursor_never_decreases(
    v: BumpView,
    reqs: Seq<(nat, nat)>,
    heap: nat,
    i: int,
    j: int,
)
    requires
        v.wf(),
        0 <= i <= j <= reqs.len(),
        aligns_positive(reqs),
    ensures
        v.before_request(reqs, heap, i).current <= v.before_request(reqs, heap, j).current,
        v.before_request(reqs, heap, i).ready(heap).current <= v.before_request(
            reqs,
            heap,
            j,
        ).ready(heap).current,
        v.before_request(reqs, heap, j).ready(heap).start == v.before_request(
            reqs,
            heap,
            i,
        ).ready(heap).start,
        v.before_request(reqs, heap, j).ready(heap).end == v.before_request(
            reqs,
            heap,
            i,
        ).ready(heap).end,
{
    lemma_between(v, reqs, heap, 0, i);
    lemma_between(v, reqs, heap, i, j);
    assert(reqs.take(0) =~= Seq::<(nat, nat)>::empty());
}

/// Any two granted requests of a sequence, with no return in between, get
/// disjoint blocks: the earlier one ends at or before the later one starts.
pub proof fn law_granted_blocks_disjoint(
    v: BumpView,
    reqs: Seq<(nat, nat)>,
    heap: nat,
    i: int,
    j: int,
)
    requires
        0 <= i < j < reqs.len(),
        aligns_positive(reqs),
        v.request_granted(reqs, heap, i),
        v.request_granted(reqs, heap, j),
    ensures
        v.request_addr(reqs, heap, i) + reqs[i].0 <= v.request_addr(reqs, heap, j),
{
    assert(reqs[i].1 > 0);
    assert(reqs[j].1 > 0);
    lemma_step(v.before_request(reqs, heap, i), reqs[i].0, reqs[i].1, heap);
    lemma_unfold(v, reqs, heap, i + 1);
    lemma_between(v, reqs, heap, i + 1, j);
    lemma_step(v.before_request(reqs, heap, j), reqs[j].0, reqs[j].1, heap);
}

/// A refused request stays refused: once a request of some size and
/// alignment gets `NULL`, the same request made again after any further
/// requests (and no return) gets `NULL` too.
pub proof fn law_refusal_persists(v: BumpView, reqs: Seq<(nat, nat)>, heap: nat, i: int, j: int)
    requires
        0 <= i < j < reqs.len(),
        aligns_positive(reqs),
        reqs[i].0 > 0,
        reqs[j] == reqs[i],
        !v.request_granted(reqs, heap, i),
    ensures
        !v.request_granted(reqs, heap, j),
        v.request_addr(reqs, heap, j) == NULL,
{
    let size = reqs[i].0;
    let align = reqs[i].1;
    assert(align > 0);
    let a = v.before_request(reqs, heap, i).ready(heap);
    let b = v.before_request(reqs, heap, j).ready(heap);
    lemma_between(v, reqs, heap, i, j);
    law_round_up_monotone(a.current as int, b.current as int, align as int);
}

/// Every block a sequence of requests is granted lies in the region the
/// allocator serves, as long as the cursor starts inside it.
pub proof fn law_granted_blocks_in_region(v: BumpView, reqs: Seq<(nat, nat)>, heap: nat, i: int)
    requires
        0 <= i < reqs.len(),
        aligns_positive(reqs),
        v.ready(heap).start <= v.ready(heap).current,
        v.request_granted(reqs, heap, i),
    ensures
        v.ready(heap).start <= v.request_addr(reqs, heap, i),
        v.request_addr(reqs, heap, i) + reqs[i].0 <= v.ready(heap).end,
{
    assert(reqs[i].1 > 0);
    lemma_between(v, reqs, heap, 0, i);
    assert(reqs.take(0) =~= Seq::<(nat, nat)>::empty());
    lemma_step(v.before_request(reqs, heap, i), reqs[i].0, reqs[i].1, heap);
}

/// The blocks granted to a sequence of requests together fit in the
/// region: their sizes add up to at most its length.
pub proof fn law_granted_bytes_fit_region(v: BumpView, reqs: Seq<(nat, nat)>, heap: nat)
    requires
        aligns_positive(reqs),
        v.ready(heap).start <= v.ready(heap).current <= v.ready(heap).end,
    ensures
        v.granted_bytes(reqs, heap) <= v.ready(heap).end - v.ready(heap).start,
{
    lemma_between(v, reqs, heap, 0, reqs.len() as int);
    assert(reqs.take(0) =~= Seq::<(nat, nat)>::empty());
    assert(reqs.take(reqs.len() as int) =~= reqs);
}

/// The cursor never falls below the region's start: initialising sets it
/// at the start, a request only moves it forward, and returning a block
/// that lies in the region moves it back no further than that block.
pub proof fn law_cursor_stays_above_start(
    v: BumpView,
    size: nat,
    align: nat,
    heap: nat,
    ptr: nat,
)
    requires
        v.start <= v.current,
        align > 0,
    ensures
        v.ready(heap).start <= v.ready(heap).current,
        v.after_alloc(size, align, heap).start <= v.after_alloc(size, align, heap).current,
        v.start <= ptr ==> v.after_dealloc(ptr, size, align).start <= v.after_dealloc(
            ptr,
            size,
            align,
        ).current,
{
    lemma_round_up(v.ready(heap).current as int, align as int);
}

/// Returning the last two blocks, the later one first: the cursor goes
/// back to the earlier block when the two were adjacent; when padding lay
/// between them, the earlier block no longer ends at the cursor and stays
/// handed out, with the cursor at the later block.
pub proof fn law_two_returns_rewind(
    v: BumpView,
    size1: nat,
    align1: nat,
    size2: nat,
    align2: nat,
    heap: nat,
)
    requires
        v.wf(),
        align1 > 0,
        align2 > 0,
        v.alloc_fits(size1, align1, heap),
        v.after_alloc(size1, align1, heap).alloc_fits(size2, align2, heap),
    ensures
        ({
            let w1 = v.after_alloc(size1, align1, heap);
            let p1 = v.alloc_addr(size1, align1, heap);
            let p2 = w1.alloc_addr(size2, align2, heap);
            let w2 = w1.after_alloc(size2, align2, heap);
            let back = w2.after_dealloc(p2, size2, align2).after_dealloc(p1, size1, align1);
            &&& p2 == p1 + size1 ==> back == BumpView { current: p1, ..w2 }
            &&& p2 != p1 + size1 ==> back == BumpView { current: p2, ..w2 }
        }),
{
    let w1 = v.after_alloc(size1, align1, heap);
    let p1 = v.alloc_addr(size1, align1, heap);
    let p2 = w1.alloc_addr(size2, align2, heap);
    lemma_round_up(v.ready(heap).current as int, align1 as int);
    lemma_round_up(w1.ready(heap).current as int, align2 as int);
    law_round_up_fixes_multiples(p1 as int, align1 as int);
    law_round_up_fixes_multiples(p2 as int, align2 as int);
}

/// Initialising with a region apart from the built-in one keeps the blocks
/// already handed out from the built-in region safe: no block granted
/// after `init` overlaps any of them.
pub proof fn law_init_keeps_earlier_blocks(
    start: nat,
    size: nat,
    heap: nat,
    reqs: Seq<(nat, nat)>,
    i: int,
    p: nat,
    len: nat,
)
    requires
        heap + STATIC_HEAP_SIZE <= start || start + size <= heap,
        heap <= p,
        p + len <= heap + STATIC_HEAP_SIZE,
        0 <= i < reqs.len(),
        aligns_positive(reqs),
        BumpView::region(start, size).request_granted(reqs, heap, i),
    ensures
        ({
            let a = BumpView::region(start, size).request_addr(reqs, heap, i);
            a + reqs[i].0 <= p || p + len <= a
        }),
{
    law_granted_blocks_in_region(BumpView::region(start, size), reqs, heap, i);
}

/// `init(start, size)` gives the allocator the `size` bytes from `start`:
/// the region ends at `start + size` and the cursor stands at `start`. A
/// first request that fits those bytes at an aligned `start` gets `start`
/// and moves the cursor to `start + s`; one whose aligned block would end
/// past `start + size` gets `NULL` and changes nothing.
pub proof fn law_init_serves_its_region(
    start: nat,
    size: nat,
    s: nat,
    align: nat,
    heap: nat,
)
    requires
        align > 0,
    ensures
        ({
            let u = BumpView::region(start, size);
            &&& u.start == start
            &&& u.end == start + size
            &&& u.current == start
            &&& u.initialized
            &&& u.ready(heap) == u
            &&& (0 < s && s <= size && start % align == 0) ==> {
                &&& u.alloc_addr(s, align, heap) == start
                &&& u.after_alloc(s, align, heap) == BumpView {
                    start,
                    end: start + size,
                    current: start + s,
                    initialized: true,
                }
            }
            &&& (0 < s && s > size) ==> {
                &&& u.alloc_addr(s, align, heap) == NULL
                &&& u.after_alloc(s, align, heap) == u
            }
        }),
{
    lemma_round_up(start as int, align as int);
    if start % align == 0 {
        law_round_up_fixes_multiples(start as int, align as int);
    }
}

/// Before `init`, the first request with a size claims the built-in region
/// of `STATIC_HEAP_SIZE` bytes at `heap`, cursor at `heap`. Such a request
/// that fits at an aligned `heap` gets `heap`, and the cursor moves to
/// `heap + s`; one larger than the built-in region gets `NULL`, and the
/// region stays claimed with nothing handed out. A zero-sized request
/// claims nothing.
pub proof fn law_first_request_claims_static_heap(v: BumpView, s: nat, align: nat, heap: nat)
    requires
        v.wf(),
        !v.initialized,
        align > 0,
    ensures
        v.ready(heap) == (BumpView {
            start: heap,
            end: heap + STATIC_HEAP_SIZE as nat,
            current: heap,
            initialized: true,
        }),
        v.after_alloc(0, align, heap) == v,
        (0 < s && s <= STATIC_HEAP_SIZE && heap % align == 0) ==> {
            &&& v.alloc_addr(s, align, heap) == heap
            &&& v.after_alloc(s, align, heap) == BumpView {
                start: heap,
                end: heap + STATIC_HEAP_SIZE as nat,
                current: heap + s,
                initialized: true,
            }
        },
        s > STATIC_HEAP_SIZE ==> {
            &&& v.alloc_addr(s, align, heap) == NULL
            &&& v.after_alloc(s, align, heap) == BumpView {
                start: heap,
                end: heap + STATIC_HEAP_SIZE as nat,
                current: heap,
                initialized: true,
            }
        },
{
    lemma_round_up(heap as int, align as int);
    if heap % align == 0 {
        law_round_up_fixes_multiples(heap as int, align as int);
    }
}

} // verus!
