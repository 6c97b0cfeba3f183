//! A bump allocator: a region `[start, end)` and a cursor `current` that
//! only moves forward on allocation and moves back only when the most
//! recent block is returned.
//!
//! The allocator is a state machine over addresses. Before `init` gives it a
//! region, the first request that needs memory claims a built-in region of
//! `STATIC_HEAP_SIZE` bytes whose address the caller supplies.

use vstd::prelude::*;

verus! {

use vstd::arithmetic::div_mod::{lemma_fundamental_div_mod, lemma_mod_multiples_basic};
use crate::util::align::{
    align_up_ptr,
    is_power_of_two,
    round_up,
    lemma_round_up,
    lemma_power_of_two_positive,
    law_round_up_fixes_multiples,
};

/// Size of the built-in region that serves requests made before `init`.
pub const STATIC_HEAP_SIZE: usize = 65536;

/// The address handed out for zero-sized requests: non-null and aligned
/// for a byte, and never backed by the region.
pub const DANGLING: usize = 1;

/// The null address: what a request that does not fit gets back.
pub const NULL: usize = 0;

/// The state of a bump allocator as plain numbers.
pub struct BumpView {
    pub start: nat,
    pub end: nat,
    pub current: nat,
    pub initialized: bool,
}

impl BumpView {
    /// An uninitialised allocator holds nothing; an initialised one has its
    /// cursor inside its region.
    pub open spec fn wf(self) -> bool {
        if self.initialized {
            &&& self.start <= self.end
            &&& self.current <= self.end
            &&& self.end <= usize::MAX
        } else {
            &&& self.start == 0
            &&& self.end == 0
            &&& self.current == 0
        }
    }

    /// A fresh region of `size` bytes at `start`, nothing handed out yet.
    pub open spec fn region(start: nat, size: nat) -> BumpView {
        BumpView { start, end: start + size, current: start, initialized: true }
    }

    /// The state once initialisation has happened: unchanged if it already
    /// had, else the built-in region at `heap`.
    pub open spec fn ready(self, heap: nat) -> BumpView {
        if self.initialized {
            self
        } else {
            BumpView::region(heap, STATIC_HEAP_SIZE as nat)
        }
    }

    /// Where a request for `size` bytes aligned to `align` lands: `DANGLING`
    /// for a zero-sized request, else the first aligned address at or after
    /// the cursor if the block ends within the region, else `NULL`.
    pub open spec fn alloc_addr(self, size: nat, align: nat, heap: nat) -> nat {
        if size == 0 {
            DANGLING as nat
        } else {
            let s = self.ready(heap);
            let a = round_up(s.current as int, align as int);
            if a + size > s.end {
                NULL as nat
            } else {
                a as nat
            }
        }
    }

    /// The state after that request: unchanged for a zero-sized request;
    /// else initialised, with the cursor moved past the block if it fit.
    pub open spec fn after_alloc(self, size: nat, align: nat, heap: nat) -> BumpView {
        if size == 0 {
            self
        } else {
            let s = self.ready(heap);
            let a = round_up(s.current as int, align as int);
            if a + size > s.end {
                s
            } else {
                BumpView { current: (a + size) as nat, ..s }
            }
        }
    }

    /// A request with a size that the region still has room for, at the
    /// first aligned address at or after the cursor.
    pub open spec fn alloc_fits(self, size: nat, align: nat, heap: nat) -> bool {
        let s = self.ready(heap);
        size > 0 && round_up(s.current as int, align as int) + size <= s.end
    }

    /// The request's address arithmetic stays within a `usize`.
    pub open spec fn alloc_in_range(self, size: nat, align: nat, heap: nat) -> bool {
        size > 0 ==> {
            let s = self.ready(heap);
            &&& !self.initialized ==> heap + STATIC_HEAP_SIZE <= usize::MAX
            &&& s.current + align <= usize::MAX
            &&& round_up(s.current as int, align as int) + size <= usize::MAX
        }
    }

    /// The state after serving `reqs` in order, each a `(size, align)`
    /// request, with no block returned in between.
    pub open spec fn after_allocs(self, reqs: Seq<(nat, nat)>, heap: nat) -> BumpView
        decreases reqs.len(),
    {
        if reqs.len() == 0 {
            self
        } else {
            let last = reqs.last();
            self.after_allocs(reqs.drop_last(), heap).after_alloc(last.0, last.1, heap)
        }
    }

    /// The state in which the `i`-th request of `reqs` is served.
    pub open spec fn before_request(self, reqs: Seq<(nat, nat)>, heap: nat, i: int) -> BumpView {
        self.after_allocs(reqs.take(i), heap)
    }

    /// Whether the `i`-th request of `reqs` is granted.
    pub open spec fn request_granted(self, reqs: Seq<(nat, nat)>, heap: nat, i: int) -> bool {
        self.before_request(reqs, heap, i).alloc_fits(reqs[i].0, reqs[i].1, heap)
    }

    /// The address the `i`-th request of `reqs` gets back.
    pub open spec fn request_addr(self, reqs: Seq<(nat, nat)>, heap: nat, i: int) -> nat {
        self.before_request(reqs, heap, i).alloc_addr(reqs[i].0, reqs[i].1, heap)
    }

    /// The bytes handed out by the granted requests among `reqs`.
    pub open spec fn granted_bytes(self, reqs: Seq<(nat, nat)>, heap: nat) -> nat
        decreases reqs.len(),
    {
        if reqs.len() == 0 {
            0
        } else {
            let last = reqs.last();
            let w = self.after_allocs(reqs.drop_last(), heap);
            self.granted_bytes(reqs.drop_last(), heap) + if w.alloc_fits(last.0, last.1, heap) {
                last.0
            } else {
                0
            }
        }
    }

    /// Returning the block at `ptr` of `size` bytes aligned to `align`: if it
    /// is the block that ends at the cursor, the cursor moves back to `ptr`;
    /// any other block is left where it is.
    pub open spec fn after_dealloc(self, ptr: nat, size: nat, align: nat) -> BumpView {
        if round_up(ptr as int, align as int) + size == self.current {
            BumpView { current: ptr, ..self }
        } else {
            self
        }
    }
}

/// The sum of two multiples of `align` is a multiple of `align`.
proof fn lemma_sum_of_multiples(x: int, y: int, align: int)
    requires
        0 < align,
        x % align == 0,
        y % align == 0,
    ensures
        (x + y) % align == 0,
{
    lemma_fundamental_div_mod(x, align);
    lemma_fundamental_div_mod(y, align);
    assert(x + y == (x / align + y / align) * align) by (nonlinear_arith)
        requires
            x == align * (x / align) + x % align,
            y == align * (y / align) + y % align,
            x % align == 0,
            y % align == 0,
    ;
    lemma_mod_multiples_basic(x / align + y / align, align);
}

/// Every operation keeps the allocator well formed: the cursor never
/// leaves the region.
pub proof fn law_operations_keep_wf(v: BumpView, size: nat, align: nat, heap: nat, ptr: nat)
    requires
        v.wf(),
        0 < align,
        v.alloc_in_range(size, align, heap),
    ensures
        v.after_alloc(size, align, heap).wf(),
        v.after_dealloc(ptr, size, align).wf(),
{
    lemma_round_up(ptr as int, align as int);
}

/// A zero-sized request gets `DANGLING` and leaves the allocator as it was.
pub proof fn law_zero_size_request_is_free(v: BumpView, align: nat, heap: nat)
    ensures
        v.alloc_addr(0, align, heap) == DANGLING,
        v.after_alloc(0, align, heap) == v,
{
}

/// A request that fits gets a block aligned to `align`, at or after the
/// cursor, inside the region, and the cursor moves to the block's end.
pub proof fn law_granted_block_placement(v: BumpView, size: nat, align: nat, heap: nat)
    requires
        v.wf(),
        0 < align,
        v.alloc_fits(size, align, heap),
    ensures
        ({
            let s = v.ready(heap);
            let a = v.alloc_addr(size, align, heap);
            let w = v.after_alloc(size, align, heap);
            &&& a % align == 0
            &&& s.current <= a
            &&& s.start <= s.current ==> s.start <= a
            &&& a + size == w.current
            &&& w.current <= w.end
            &&& w.start == s.start
            &&& w.end == s.end
            &&& w.initialized
        }),
{
    lemma_round_up(v.ready(heap).current as int, align as int);
}

/// A request that does not fit gets `NULL`, changes nothing beyond
/// initialisation, and the same request is refused again.
pub proof fn law_refused_request(v: BumpView, size: nat, align: nat, heap: nat)
    requires
        size > 0,
        !v.alloc_fits(size, align, heap),
    ensures
        v.alloc_addr(size, align, heap) == NULL,
        v.after_alloc(size, align, heap) == v.ready(heap),
        v.after_alloc(size, align, heap).alloc_addr(size, align, heap) == NULL,
        v.after_alloc(size, align, heap).after_alloc(size, align, heap) == v.after_alloc(
            size,
            align,
            heap,
        ),
{
}

/// Two blocks granted one after the other do not overlap: the second
/// starts at or after the end of the first.
pub proof fn law_successive_blocks_disjoint(
    v: BumpView,
    size1: nat,
    align1: nat,
    size2: nat,
    align2: nat,
    heap: nat,
)
    requires
        v.wf(),
        0 < align1,
        0 < align2,
        v.alloc_fits(size1, align1, heap),
        v.after_alloc(size1, align1, heap).alloc_fits(size2, align2, heap),
    ensures
        v.alloc_addr(size1, align1, heap) + size1 <= v.after_alloc(size1, align1, heap).alloc_addr(
            size2,
            align2,
            heap,
        ),
{
    let w = v.after_alloc(size1, align1, heap);
    lemma_round_up(v.ready(heap).current as int, align1 as int);
    lemma_round_up(w.current as int, align2 as int);
}

/// Two granted requests of the same layout, whose size is a multiple of
/// the alignment, get adjacent blocks: the second starts where the first
/// ends.
pub proof fn law_same_layout_blocks_adjacent(v: BumpView, size: nat, align: nat, heap: nat)
    requires
        v.wf(),
        0 < align,
        size % align == 0,
        v.alloc_fits(size, align, heap),
        v.after_alloc(size, align, heap).alloc_fits(size, align, heap),
    ensures
        v.after_alloc(size, align, heap).alloc_addr(size, align, heap) == v.alloc_addr(
            size,
            align,
            heap,
        ) + size,
{
    let a = v.alloc_addr(size, align, heap);
    lemma_round_up(v.ready(heap).current as int, align as int);
    lemma_sum_of_multiples(a as int, size as int, align as int);
    law_round_up_fixes_multiples((a + size) as int, align as int);
}

/// Returning the block just granted undoes the request up to the padding
/// before it: the cursor is back at the block's address, and the same
/// request is granted that address again.
pub proof fn law_dealloc_of_last_block_rewinds(v: BumpView, size: nat, align: nat, heap: nat)
    requires
        v.wf(),
        0 < align,
        v.alloc_fits(size, align, heap),
    ensures
        ({
            let a = v.alloc_addr(size, align, heap);
            let back = v.after_alloc(size, align, heap).after_dealloc(a, size, align);
            &&& back == BumpView { current: a, ..v.ready(heap) }
            &&& back.alloc_addr(size, align, heap) == a
            &&& back.after_alloc(size, align, heap) == v.after_alloc(size, align, heap)
        }),
{
    let a = v.alloc_addr(size, align, heap);
    lemma_round_up(v.ready(heap).current as int, align as int);
    law_round_up_fixes_multiples(a as int, align as int);
}

/// Returning a block that does not end at the cursor changes nothing.
pub proof fn law_dealloc_of_other_block_is_noop(v: BumpView, ptr: nat, size: nat, align: nat)
    requires
        round_up(ptr as int, align as int) + size != v.current,
    ensures
        v.after_dealloc(ptr, size, align) == v,
{
}

/// Where a block of `size` bytes aligned to `align` goes when the cursor is
/// at `current` and the region ends at `end`: the block's address and the
/// cursor after it, or `None` when the block would end past `end`.
pub fn plan_bump(current: usize, end: usize, size: usize, align: usize) -> (r: Option<(usize, usize)>)
    requires
        is_power_of_two(align),
        current + align <= usize::MAX,
        round_up(current as int, align as int) + size <= usize::MAX,
    ensures
        r is Some <==> round_up(current as int, align as int) + size <= end,
        r matches Some((a, next)) ==> a == round_up(current as int, align as int) && next == a
            + size,
{
    let aligned = align_up_ptr(current, align);
    let next = aligned + size;
    if next > end {
        None
    } else {
        Some((aligned, next))
    }
}

/// Where the cursor goes when the block at `ptr` of `size` bytes aligned to
/// `align` is returned: back to `ptr` if that block ends at `current`, else
/// nowhere (`None`).
pub fn plan_rewind(current: usize, ptr: usize, size: usize, align: usize) -> (r: Option<usize>)
    requires
        is_power_of_two(align),
        ptr + align <= usize::MAX,
        round_up(ptr as int, align as int) + size <= usize::MAX,
    ensures
        r is Some <==> round_up(ptr as int, align as int) + size == current,
        r matches Some(p) ==> p == ptr,
{
    let aligned_start = align_up_ptr(ptr, align);
    let end = aligned_start + size;
    if current == end {
        Some(ptr)
    } else {
        None
    }
}

/// A bump allocator over one region of addresses.
pub struct BumpAllocator {
    start: usize,
    end: usize,
    current: usize,
    initialized: bool,
}

impl View for BumpAllocator {
    type V = BumpView;

    closed spec fn view(&self) -> BumpView {
        BumpView {
            start: self.start as nat,
            end: self.end as nat,
            current: self.current as nat,
            initialized: self.initialized,
        }
    }
}

impl BumpAllocator {
    #[verifier::type_invariant]
    spec fn inv(self) -> bool {
        self@.wf()
    }

    /// An allocator with no region yet.
    pub fn new() -> (r: Self)
        ensures
            r@ == (BumpView { start: 0, end: 0, current: 0, initialized: false }),
            r@.wf(),
    {
        BumpAllocator { start: 0, end: 0, current: 0, initialized: false }
    }

    /// Gives the allocator the region of `size` bytes at `start`, with
    /// nothing handed out. Meant to be called once, before any request.
    pub fn init(&mut self, start: usize, size: usize)
        requires
            start + size <= usize::MAX,
        ensures
            final(self)@ == BumpView::region(start as nat, size as nat),
            final(self)@.start == start,
            final(self)@.end == start + size,
            final(self)@.current == start,
            final(self)@.initialized,
            final(self)@.wf(),
    {
        *self = BumpAllocator { start, end: start + size, current: start, initialized: true };
    }

    /// Claims the built-in region at `heap` unless a region is already set.
    pub fn ensure_init(&mut self, heap: usize)
        requires
            !old(self)@.initialized ==> heap + STATIC_HEAP_SIZE <= usize::MAX,
        ensures
            final(self)@ == old(self)@.ready(heap as nat),
            old(self)@.initialized ==> final(self)@ == old(self)@,
            !old(self)@.initialized ==> final(self)@.start == heap && final(self)@.end == heap
                + STATIC_HEAP_SIZE && final(self)@.current == heap && final(self)@.initialized,
            final(self)@.wf(),
    {
        proof {
            use_type_invariant(&*self);
        }
        if self.initialized {
            return;
        }
        *self = BumpAllocator {
            start: heap,
            end: heap + STATIC_HEAP_SIZE,
            current: heap,
            initialized: true,
        };
    }

    /// Serves a request for `size` bytes aligned to `align`. A zero-sized
    /// request gets `DANGLING` and touches nothing; otherwise the allocator
    /// is initialised (with the built-in region at `heap` if it had none)
    /// and the block starts at the first aligned address at or after the
    /// cursor, or the request gets `NULL` when the block would not end
    /// within the region.
    pub fn allocate(&mut self, size: usize, align: usize, heap: usize) -> (r: usize)
        requires
            is_power_of_two(align),
            old(self)@.alloc_in_range(size as nat, align as nat, heap as nat),
        ensures
            r == old(self)@.alloc_addr(size as nat, align as nat, heap as nat),
            final(self)@ == old(self)@.after_alloc(size as nat, align as nat, heap as nat),
            final(self)@.wf(),
    {
        if size == 0 {
            proof {
                use_type_invariant(&*self);
            }
            return DANGLING;
        }
        self.ensure_init(heap);
        proof {
            use_type_invariant(&*self);
        }
        match plan_bump(self.current, self.end, size, align) {
            Some((aligned, next)) => {
                self.current = next;
                aligned
            },
            None => NULL,
        }
    }

    /// Takes back the block at `ptr` of `size` bytes aligned to `align`. Only
    /// the most recent block is reclaimed: the cursor moves back to `ptr`.
    /// Any other block stays handed out.
    pub fn dealloc(&mut self, ptr: usize, size: usize, align: usize)
        requires
            is_power_of_two(align),
            ptr + align <= usize::MAX,
            round_up(ptr as int, align as int) + size <= usize::MAX,
        ensures
            final(self)@ == old(self)@.after_dealloc(ptr as nat, size as nat, align as nat),
            final(self)@.wf(),
    {
        proof {
            use_type_invariant(&*self);
            lemma_power_of_two_positive(align);
            lemma_round_up(ptr as int, align as int);
        }
        match plan_rewind(self.current, ptr, size, align) {
            Some(p) => {
                self.current = p;
            },
            None => {},
        }
    }

    /// First address of the region.
    pub fn start(&self) -> (r: usize)
        ensures
            r == self@.start,
    {
        self.start
    }

    /// First address past the region.
    pub fn end(&self) -> (r: usize)
        ensures
            r == self@.end,
    {
        self.end
    }

    /// The cursor: where the next block's search for an aligned address
    /// begins.
    pub fn current(&self) -> (r: usize)
        ensures
            r == self@.current,
    {
        self.current
    }

    /// Whether the allocator has a region.
    pub fn is_initialized(&self) -> (r: bool)
        ensures
            r == self@.initialized,
    {
        self.initialized
    }
}

} // verus!
