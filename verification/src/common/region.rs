use vstd::prelude::*;

verus! {

/// A nonzero region of memory, from `start` (included) to `end` (excluded).
#[derive(Clone, Copy)]
pub struct Region {
    start: usize,
    end: usize,
}

/// The bounds of a region as mathematical integers.
pub struct RegionSpan {
    pub start: int,
    pub end: int,
}

/// Whether the two spans share an address.
pub open spec fn spans_intersect(a: RegionSpan, b: RegionSpan) -> bool {
    b.start < a.end && b.end > a.start
}

pub open spec fn min_int(a: int, b: int) -> int {
    if a <= b { a } else { b }
}

pub open spec fn max_int(a: int, b: int) -> int {
    if a >= b { a } else { b }
}

/// The part of `a` below `b`, if it is not empty.
pub open spec fn left_rest(a: RegionSpan, b: RegionSpan) -> Option<RegionSpan> {
    if a.start < b.start && a.start < min_int(a.end, b.start) {
        Some(RegionSpan { start: a.start, end: min_int(a.end, b.start) })
    } else {
        None
    }
}

/// The part of `a` above `b`, if it is not empty.
pub open spec fn right_rest(a: RegionSpan, b: RegionSpan) -> Option<RegionSpan> {
    if b.end < a.end && max_int(a.start, b.end) < a.end {
        Some(RegionSpan { start: max_int(a.start, b.end), end: a.end })
    } else {
        None
    }
}

/// Whether address `x` lies in the span.
pub open spec fn span_contains(s: RegionSpan, x: int) -> bool {
    s.start <= x < s.end
}

/// Whether address `x` lies in the piece, when there is one.
pub open spec fn piece_contains(p: Option<RegionSpan>, x: int) -> bool {
    match p {
        Some(s) => span_contains(s, x),
        None => false,
    }
}

/// Taking `b` out of `a` leaves exactly the addresses of `a` outside `b`, in
/// at most two nonempty pieces that share no address: the piece below `b`
/// holds exactly the addresses of `a` below `b`'s start, and the piece above
/// `b` holds exactly the addresses of `a` at or past `b`'s end (so it exists
/// only when `b` ends before `a` does).
pub proof fn lemma_subtract_pieces(a: RegionSpan, b: RegionSpan, x: int)
    requires
        a.start < a.end,
        b.start < b.end,
    ensures
        piece_contains(left_rest(a, b), x) <==> (span_contains(a, x) && x < b.start),
        piece_contains(right_rest(a, b), x) <==> (span_contains(a, x) && x >= b.end),
        (span_contains(a, x) && !span_contains(b, x)) <==> (piece_contains(left_rest(a, b), x)
            || piece_contains(right_rest(a, b), x)),
        !(piece_contains(left_rest(a, b), x) && piece_contains(right_rest(a, b), x)),
        left_rest(a, b) matches Some(l) ==> l.start < l.end,
        right_rest(a, b) matches Some(r) ==> r.start < r.end,
        right_rest(a, b) is Some ==> b.end < a.end,
        left_rest(a, b) is Some ==> a.start < b.start,
{
}

impl View for Region {
    type V = RegionSpan;

    closed spec fn view(&self) -> RegionSpan {
        RegionSpan { start: self.start as int, end: self.end as int }
    }
}

impl Region {
    #[verifier::type_invariant]
    spec fn nonzero(&self) -> bool {
        self.start < self.end
    }

    pub fn try_new(start: usize, end: usize) -> (r: Option<Self>)
        ensures
            r is Some <==> start < end,
            r is Some ==> r->0@ == (RegionSpan { start: start as int, end: end as int }),
    {
        if start < end {
            Some(Self { start, end })
        } else {
            None
        }
    }

    pub fn new(start: usize, end: usize) -> (r: Self)
        requires
            start < end,
        ensures
            r@ == (RegionSpan { start: start as int, end: end as int }),
    {
        Self { start, end }
    }

    pub fn start(&self) -> (r: usize)
        ensures
            r == self@.start,
            self@.start < self@.end,
    {
        proof {
            use_type_invariant(self);
        }
        self.start
    }

    pub fn end(&self) -> (r: usize)
        ensures
            r == self@.end,
            self@.start < self@.end,
    {
        proof {
            use_type_invariant(self);
        }
        self.end
    }

    pub fn size(&self) -> (r: u64)
        ensures
            r == self@.end - self@.start,
            r > 0,
    {
        proof {
            use_type_invariant(self);
        }
        (self.end as u64) - (self.start as u64)
    }

    /// The parts of `self` that lie below and above `other`.
    pub fn subtract(&self, other: &Region) -> (r: [Option<Region>; 2])
        ensures
            r[0] is Some == left_rest(self@, other@) is Some,
            r[0] is Some ==> r[0]->0@ == left_rest(self@, other@)->0,
            r[1] is Some == right_rest(self@, other@) is Some,
            r[1] is Some ==> r[1]->0@ == right_rest(self@, other@)->0,
    {
        let left = if self.start < other.start {
            let end = if self.end <= other.start { self.end } else { other.start };
            Self::try_new(self.start, end)
        } else {
            None
        };
        let right = if other.end < self.end {
            let start = if self.start >= other.end { self.start } else { other.end };
            Self::try_new(start, self.end)
        } else {
            None
        };
        [left, right]
    }

    pub fn intersects(&self, other: &Region) -> (r: bool)
        ensures
            r == spans_intersect(self@, other@),
    {
        other.start < self.end && other.end > self.start
    }
}

} // verus!
