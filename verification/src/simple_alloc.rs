//! A simple bump allocator: allocates by moving a cursor up through one
//! region of memory, and never frees.

use vstd::prelude::*;
use crate::math::{Alignable, round_up, lemma_round_up};

verus! {

/// The state of the allocator: whether it has a region yet, the next
/// available address, and the end of the region.
pub struct AllocState {
    pub configured: bool,
    pub current: int,
    pub end: int,
}

/// The start of the block that an allocation of `size` bytes aligned to
/// `align` gets, or `None` when the region has no room left for it.
pub open spec fn alloc_outcome(st: AllocState, size: int, align: int) -> Option<int> {
    let start = round_up(st.current, align);
    if start + size > st.end {
        None
    } else {
        Some(start)
    }
}

/// The state after that allocation: the cursor moves past the block, or stays on failure.
pub open spec fn after_alloc(st: AllocState, size: int, align: int) -> AllocState {
    match alloc_outcome(st, size, align) {
        Some(start) => AllocState { current: start + size, ..st },
        None => st,
    }
}

/// A simple test allocator.
///
/// Allocates by incrementing a pointer, never frees allocations.
///
/// Invariant: data at limit is never accessed directly via this struct. It could
/// still be accessed by the caller of `alloc`.
pub struct PushAllocatorInternal {
    configured: bool,
    /// Next available byte
    current_byte: usize,
    end: usize,
}

impl View for PushAllocatorInternal {
    type V = AllocState;

    closed spec fn view(&self) -> AllocState {
        AllocState {
            configured: self.configured,
            current: self.current_byte as int,
            end: self.end as int,
        }
    }
}

impl PushAllocatorInternal {
    pub fn new() -> (r: Self)
        ensures
            r@ == (AllocState { configured: false, current: 0, end: 0 }),
    {
        Self { configured: false, current_byte: 0, end: 0 }
    }

    /// Hands the allocator the region from `start` to `end`; allowed once.
    pub fn configure(&mut self, start: usize, end: usize)
        requires
            !old(self)@.configured,
        ensures
            final(self)@ == (AllocState { configured: true, current: start as int, end: end as int }),
    {
        self.current_byte = start;
        self.end = end;
        self.configured = true;
    }

    pub fn is_configured(&self) -> (r: bool)
        ensures
            r == self@.configured,
    {
        self.configured
    }

    pub fn current_byte(&self) -> (r: usize)
        ensures
            r == self@.current,
    {
        self.current_byte
    }

    pub fn end(&self) -> (r: usize)
        ensures
            r == self@.end,
    {
        self.end
    }

    /// Allocates `size` bytes aligned to `align`: the block starts at the
    /// cursor rounded up to the alignment; `None` when it would pass the end.
    pub fn alloc_bytes(&mut self, size: usize, align: usize) -> (r: Option<usize>)
        requires
            old(self)@.configured,
            align > 0,
            round_up(old(self)@.current, align as int) + size <= usize::MAX,
        ensures
            r matches Some(s) ==> alloc_outcome(old(self)@, size as int, align as int) == Some(
                s as int,
            ),
            r is None ==> alloc_outcome(old(self)@, size as int, align as int) is None,
            final(self)@ == after_alloc(old(self)@, size as int, align as int),
    {
        let region_start = self.current_byte.align_up(align);
        let region_end = region_start + size;
        if region_end > self.end {
            return None;
        }
        self.current_byte = region_end;
        Some(region_start)
    }
}

/// Two different multiples of `m` lie at least `m` apart.
proof fn lemma_multiples_apart(a: int, b: int, m: int)
    requires
        m > 0,
        a % m == 0,
        b % m == 0,
        a < b,
    ensures
        b - a >= m,
{
    vstd::arithmetic::div_mod::lemma_fundamental_div_mod(a, m);
    vstd::arithmetic::div_mod::lemma_fundamental_div_mod(b, m);
    let qa = a / m;
    let qb = b / m;
    assert(b - a >= m) by (nonlinear_arith)
        requires
            m > 0,
            a == m * qa,
            b == m * qb,
            a < b,
    {
        if qb <= qa {
            assert(m * qb <= m * qa);
        }
    }
}

/// An allocation succeeds exactly when there is room for it: whenever some
/// block of `size` bytes that starts at an address aligned to `align`, at or
/// after the cursor, ends within the region (`b` is any such start), the
/// allocation succeeds; and the block it hands out is aligned, starts at or
/// after the cursor, ends within the region, and starts at the lowest such
/// address, at or below every aligned `b` at or after the cursor.
pub proof fn lemma_alloc_succeeds_when_a_block_fits(st: AllocState, size: int, align: int, b: int)
    requires
        st.current >= 0,
        size >= 0,
        align > 0,
    ensures
        b % align == 0 && st.current <= b && b + size <= st.end ==> alloc_outcome(
            st,
            size,
            align,
        ) is Some,
        alloc_outcome(st, size, align) matches Some(s) ==> {
            &&& s % align == 0
            &&& st.current <= s
            &&& s + size <= st.end
            &&& (b % align == 0 && st.current <= b ==> s <= b)
        },
{
    let r = round_up(st.current, align);
    lemma_round_up(st.current, align);
    if b % align == 0 && st.current <= b && b < r {
        lemma_multiples_apart(b, r, align);
    }
}

/// Successive allocations never overlap: each block starts at or after the
/// cursor, the next one starts at or after the end of the previous one, and
/// both end within the region.
pub proof fn lemma_allocations_disjoint(
    st: AllocState,
    size1: int,
    align1: int,
    size2: int,
    align2: int,
)
    requires
        st.current >= 0,
        size1 >= 0,
        size2 >= 0,
        align1 > 0,
        align2 > 0,
        alloc_outcome(st, size1, align1) is Some,
        alloc_outcome(after_alloc(st, size1, align1), size2, align2) is Some,
    ensures
        ({
            let b1 = alloc_outcome(st, size1, align1)->0;
            let b2 = alloc_outcome(after_alloc(st, size1, align1), size2, align2)->0;
            &&& st.current <= b1
            &&& b1 + size1 <= b2
            &&& b2 + size2 <= st.end
            &&& b1 % align1 == 0
            &&& b2 % align2 == 0
        }),
{
    let b1 = alloc_outcome(st, size1, align1)->0;
    lemma_round_up(st.current, align1);
    let st1 = after_alloc(st, size1, align1);
    lemma_round_up(st1.current, align2);
}

/// The state after the allocation requests `reqs`, each a (size, alignment) pair, in order.
pub open spec fn state_after(st: AllocState, reqs: Seq<(int, int)>) -> AllocState
    decreases reqs.len(),
{
    if reqs.len() == 0 {
        st
    } else {
        after_alloc(state_after(st, reqs.drop_last()), reqs.last().0, reqs.last().1)
    }
}

/// The start of the block that request `i` of `reqs` gets, or `None` when it fails.
pub open spec fn block_of(st: AllocState, reqs: Seq<(int, int)>, i: int) -> Option<int> {
    alloc_outcome(state_after(st, reqs.take(i)), reqs[i].0, reqs[i].1)
}

/// Sizes are not negative and alignments are positive.
pub open spec fn requests_valid(reqs: Seq<(int, int)>) -> bool {
    forall|i: int| 0 <= i < reqs.len() ==> #[trigger] reqs[i].0 >= 0 && reqs[i].1 > 0
}

proof fn lemma_step_grows(p: AllocState, size: int, align: int)
    requires
        p.current >= 0,
        size >= 0,
        align > 0,
    ensures
        after_alloc(p, size, align).current >= p.current,
        after_alloc(p, size, align).end == p.end,
        alloc_outcome(p, size, align) matches Some(b) ==> {
            &&& p.current <= b
            &&& b + size == after_alloc(p, size, align).current
            &&& b + size <= p.end
            &&& b % align == 0
        },
{
    lemma_round_up(p.current, align);
}

proof fn lemma_cursor_grows(st: AllocState, reqs: Seq<(int, int)>, b: int)
    requires
        st.current >= 0,
        requests_valid(reqs),
        0 <= b <= reqs.len(),
    ensures
        state_after(st, reqs.take(b)).end == st.end,
        forall|a: int|
            0 <= a <= b ==> st.current <= #[trigger] state_after(st, reqs.take(a)).current
                <= state_after(st, reqs.take(b)).current,
    decreases b,
{
    if b == 0 {
        assert(reqs.take(0) =~= Seq::<(int, int)>::empty());
    } else {
        lemma_cursor_grows(st, reqs, b - 1);
        assert(reqs.take(b).drop_last() == reqs.take(b - 1));
        assert(reqs.take(b).last() == reqs[b - 1]);
        assert(reqs[b - 1].0 >= 0 && reqs[b - 1].1 > 0);
        lemma_step_grows(state_after(st, reqs.take(b - 1)), reqs[b - 1].0, reqs[b - 1].1);
    }
}

/// Any sequence of allocations hands out blocks in increasing order that
/// never overlap: a block granted earlier ends before any block granted
/// later begins, every block is aligned as asked, starts at or after the
/// cursor the sequence began with, and ends within the region.
pub proof fn lemma_allocation_sequence_disjoint(
    st: AllocState,
    reqs: Seq<(int, int)>,
    i: int,
    j: int,
)
    requires
        st.current >= 0,
        requests_valid(reqs),
        0 <= i < j < reqs.len(),
        block_of(st, reqs, i) is Some,
        block_of(st, reqs, j) is Some,
    ensures
        ({
            let bi = block_of(st, reqs, i)->0;
            let bj = block_of(st, reqs, j)->0;
            &&& st.current <= bi
            &&& bi + reqs[i].0 <= bj
            &&& bj + reqs[j].0 <= st.end
            &&& bi % reqs[i].1 == 0
            &&& bj % reqs[j].1 == 0
        }),
{
    lemma_cursor_grows(st, reqs, j);
    lemma_cursor_grows(st, reqs, i + 1);
    let si = state_after(st, reqs.take(i));
    let sj = state_after(st, reqs.take(j));
    assert(reqs[i].0 >= 0 && reqs[i].1 > 0);
    assert(reqs[j].0 >= 0 && reqs[j].1 > 0);
    assert(st.current <= si.current);
    assert(st.current <= sj.current);
    lemma_step_grows(si, reqs[i].0, reqs[i].1);
    lemma_step_grows(sj, reqs[j].0, reqs[j].1);
    assert(reqs.take(i + 1).drop_last() == reqs.take(i));
    assert(reqs.take(i + 1).last() == reqs[i]);
    assert(state_after(st, reqs.take(i + 1)).current <= sj.current);
}

} // verus!
