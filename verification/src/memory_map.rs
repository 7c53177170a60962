//! Finding the free physical memory: the available areas that the boot
//! loader reports, minus the regions already in use.

use vstd::prelude::*;
use crate::common::buf_vec::BufVec;
use crate::common::region::{Region, RegionSpan, left_rest, right_rest, spans_intersect};

verus! {

/// The spans of a sequence of regions.
pub open spec fn spans(s: Seq<Region>) -> Seq<RegionSpan> {
    s.map_values(|r: Region| r@)
}

pub open spec fn opt_seq(o: Option<RegionSpan>) -> Seq<RegionSpan> {
    match o {
        Some(x) => seq![x],
        None => Seq::empty(),
    }
}

/// What remains of `a` once `b` is taken out: the part below `b`, then the part above it.
pub open spec fn pieces(a: RegionSpan, b: RegionSpan) -> Seq<RegionSpan> {
    opt_seq(left_rest(a, b)) + opt_seq(right_rest(a, b))
}

/// Takes `used` out of each span of `avail`, keeping the order.
pub open spec fn subtract_each(avail: Seq<RegionSpan>, used: RegionSpan) -> Seq<RegionSpan>
    decreases avail.len(),
{
    if avail.len() == 0 {
        Seq::empty()
    } else {
        subtract_each(avail.drop_last(), used) + pieces(avail.last(), used)
    }
}

/// Takes each span of `used` out of `avail`, one after the other.
pub open spec fn subtract_all(avail: Seq<RegionSpan>, used: Seq<RegionSpan>) -> Seq<RegionSpan>
    decreases used.len(),
{
    if used.len() == 0 {
        avail
    } else {
        subtract_each(subtract_all(avail, used.drop_last()), used.last())
    }
}

/// Whether every intermediate result of `subtract_all` has at most `cap` spans.
pub open spec fn fits_all(avail: Seq<RegionSpan>, used: Seq<RegionSpan>, cap: nat) -> bool
    decreases used.len(),
{
    if used.len() == 0 {
        true
    } else {
        fits_all(avail, used.drop_last(), cap) && subtract_all(avail, used).len() <= cap
    }
}

/// Whether some span of `s` holds `addr`.
pub open spec fn covers(s: Seq<RegionSpan>, addr: int) -> bool {
    exists|k: int| 0 <= k < s.len() && #[trigger] s[k].start <= addr && addr < s[k].end
}

/// Whether `x` lies within some span of `s`.
pub open spec fn within_some(x: RegionSpan, s: Seq<RegionSpan>) -> bool {
    exists|i: int| 0 <= i < s.len() && inside(x, #[trigger] s[i])
}

/// Whether `x` lies within `a`.
pub open spec fn inside(x: RegionSpan, a: RegionSpan) -> bool {
    a.start <= x.start && x.end <= a.end
}

pub open spec fn region_size(r: RegionSpan) -> int {
    r.end - r.start
}

proof fn lemma_subtract_each_prefix(avail: Seq<RegionSpan>, used: RegionSpan, i: int)
    requires
        0 <= i < avail.len(),
    ensures
        subtract_each(avail.take(i + 1), used) == subtract_each(avail.take(i), used) + pieces(
            avail[i],
            used,
        ),
{
    assert(avail.take(i + 1).drop_last() == avail.take(i));
}

proof fn lemma_subtract_each_grows(avail: Seq<RegionSpan>, used: RegionSpan, i: int)
    requires
        0 <= i <= avail.len(),
    ensures
        subtract_each(avail.take(i), used).len() <= subtract_each(avail, used).len(),
    decreases avail.len() - i,
{
    if i < avail.len() {
        lemma_subtract_each_prefix(avail, used, i);
        lemma_subtract_each_grows(avail, used, i + 1);
    } else {
        assert(avail.take(i) == avail);
    }
}

/// Takes `used` out of every available region; fails when the pieces do not
/// fit in the capacity.
pub fn subtract_from_all(avail: &BufVec<Region, 128>, used: &Region) -> (r: Result<
    BufVec<Region, 128>,
    (),
>)
    ensures
        r is Ok <==> subtract_each(spans(avail@), used@).len() <= 128,
        r is Ok ==> spans(r->Ok_0@) == subtract_each(spans(avail@), used@),
{
    let ghost sp = spans(avail@);
    let mut buf: BufVec<Region, 128> = BufVec::new();
    let n = avail.len();
    let mut i: usize = 0;
    assert(sp.take(0) =~= Seq::<RegionSpan>::empty());
    assert(spans(buf@) =~= Seq::<RegionSpan>::empty());
    while i < n
        invariant
            n == avail@.len(),
            sp == spans(avail@),
            0 <= i <= n,
            spans(buf@) == subtract_each(sp.take(i as int), used@),
            buf@.len() <= 128,
        decreases n - i,
    {
        let a = avail.index(i);
        let parts = a.subtract(used);
        proof {
            lemma_subtract_each_prefix(sp, used@, i as int);
            lemma_subtract_each_grows(sp, used@, (i + 1) as int);
        }
        let ghost before = spans(buf@);
        match parts[0] {
            Some(x) => {
                let pushed = buf.push(x);
                if pushed.is_err() {
                    return Err(());
                }
                assert(spans(buf@) =~= before + seq![x@]);
            },
            None => {},
        }
        let ghost mid = spans(buf@);
        assert(mid == before + opt_seq(left_rest(a@, used@)));
        match parts[1] {
            Some(x) => {
                let pushed = buf.push(x);
                if pushed.is_err() {
                    return Err(());
                }
                assert(spans(buf@) =~= mid + seq![x@]);
            },
            None => {},
        }
        assert(spans(buf@) =~= before + pieces(a@, used@));
        i = i + 1;
    }
    assert(sp.take(n as int) == sp);
    Ok(buf)
}

/// The available regions with every used region taken out, in order; fails when
/// an intermediate result does not fit in the capacity.
pub fn free_regions(avail: &BufVec<Region, 128>, used: &BufVec<Region, 64>) -> (r: Result<
    BufVec<Region, 128>,
    (),
>)
    ensures
        r is Ok <==> fits_all(spans(avail@), spans(used@), 128),
        r is Ok ==> spans(r->Ok_0@) == subtract_all(spans(avail@), spans(used@)),
{
    let ghost a0 = spans(avail@);
    let ghost us = spans(used@);
    let mut cur: BufVec<Region, 128> = BufVec::new();
    let mut k: usize = 0;
    let _ = avail.len();
    while k < avail.len()
        invariant
            a0 == spans(avail@),
            0 <= k <= avail@.len(),
            avail@.len() <= 128,
            cur@ == avail@.take(k as int),
        decreases avail@.len() - k,
    {
        let _ = cur.push(avail.index(k));
        assert(avail@.take(k + 1) == avail@.take(k as int).push(avail@[k as int]));
        k = k + 1;
    }
    assert(avail@.take(k as int) == avail@);
    let n = used.len();
    let mut j: usize = 0;
    assert(us.take(0) =~= Seq::<RegionSpan>::empty());
    while j < n
        invariant
            n == used@.len(),
            us == spans(used@),
            a0 == spans(avail@),
            0 <= j <= n,
            spans(cur@) == subtract_all(a0, us.take(j as int)),
            fits_all(a0, us.take(j as int), 128),
        decreases n - j,
    {
        let u = used.index(j);
        proof {
            assert(us.take(j + 1).drop_last() == us.take(j as int));
        }
        let next = subtract_from_all(&cur, &u);
        match next {
            Ok(b) => {
                cur = b;
            },
            Err(()) => {
                proof {
                    if fits_all(a0, us, 128) {
                        lemma_fits_prefix(a0, us, (j + 1) as int);
                    }
                }
                return Err(());
            },
        }
        j = j + 1;
    }
    assert(us.take(n as int) == us);
    Ok(cur)
}

/// `fits_all` of a sequence implies it of every prefix.
proof fn lemma_fits_prefix(avail: Seq<RegionSpan>, used: Seq<RegionSpan>, i: int)
    requires
        0 <= i <= used.len(),
        fits_all(avail, used, 128),
    ensures
        fits_all(avail, used.take(i), 128),
    decreases used.len() - i,
{
    if i < used.len() {
        lemma_fits_prefix(avail, used, i + 1);
        assert(used.take(i + 1).drop_last() == used.take(i));
    } else {
        assert(used.take(i) == used);
    }
}

proof fn lemma_covers_concat(s1: Seq<RegionSpan>, s2: Seq<RegionSpan>, addr: int)
    ensures
        covers(s1 + s2, addr) <==> covers(s1, addr) || covers(s2, addr),
{
    let s = s1 + s2;
    if covers(s, addr) {
        let k = choose|k: int| 0 <= k < s.len() && #[trigger] s[k].start <= addr && addr < s[k].end;
        if k < s1.len() {
            assert(s1[k] == s[k]);
        } else {
            assert(s2[k - s1.len()] == s[k]);
        }
    }
    if covers(s1, addr) {
        let k = choose|k: int| 0 <= k < s1.len() && #[trigger] s1[k].start <= addr && addr < s1[k].end;
        assert(s[k] == s1[k]);
    }
    if covers(s2, addr) {
        let k = choose|k: int| 0 <= k < s2.len() && #[trigger] s2[k].start <= addr && addr < s2[k].end;
        assert(s[k + s1.len()] == s2[k]);
    }
}

proof fn lemma_pieces_cover(a: RegionSpan, b: RegionSpan, addr: int)
    ensures
        covers(pieces(a, b), addr) <==> (a.start <= addr < a.end && !(b.start <= addr < b.end)),
{
    let l = opt_seq(left_rest(a, b));
    let r = opt_seq(right_rest(a, b));
    lemma_covers_concat(l, r, addr);
    if a.start <= addr < a.end && !(b.start <= addr < b.end) {
        if addr < b.start {
            assert(l[0].start <= addr && addr < l[0].end);
        } else {
            assert(r[0].start <= addr && addr < r[0].end);
        }
    }
    if covers(l, addr) {
        assert(l[0].start <= addr && addr < l[0].end);
    }
    if covers(r, addr) {
        assert(r[0].start <= addr && addr < r[0].end);
    }
}

proof fn lemma_pieces_sound(a: RegionSpan, b: RegionSpan)
    ensures
        forall|k: int|
            0 <= k < pieces(a, b).len() ==> !spans_intersect(b, #[trigger] pieces(a, b)[k])
                && inside(pieces(a, b)[k], a),
{
    let l = opt_seq(left_rest(a, b));
    let r = opt_seq(right_rest(a, b));
    assert forall|k: int| 0 <= k < pieces(a, b).len() implies !spans_intersect(
        b,
        #[trigger] pieces(a, b)[k],
    ) && inside(pieces(a, b)[k], a) by {
        if k < l.len() {
            assert(pieces(a, b)[k] == l[k]);
        } else {
            assert(pieces(a, b)[k] == r[k - l.len()]);
        }
    }
}

proof fn lemma_subtract_each_cover(avail: Seq<RegionSpan>, u: RegionSpan, addr: int)
    ensures
        covers(subtract_each(avail, u), addr) <==> (covers(avail, addr) && !(u.start <= addr
            < u.end)),
    decreases avail.len(),
{
    if avail.len() == 0 {
    } else {
        let init = avail.drop_last();
        lemma_subtract_each_cover(init, u, addr);
        lemma_covers_concat(subtract_each(init, u), pieces(avail.last(), u), addr);
        lemma_pieces_cover(avail.last(), u, addr);
        assert(avail == init.push(avail.last()));
        lemma_covers_concat(init, seq![avail.last()], addr);
        assert(init + seq![avail.last()] == avail);
        if covers(seq![avail.last()], addr) {
            assert(seq![avail.last()][0] == avail.last());
        }
        if avail.last().start <= addr && addr < avail.last().end {
            assert(seq![avail.last()][0] == avail.last());
        }
    }
}

proof fn lemma_subtract_each_sound(avail: Seq<RegionSpan>, u: RegionSpan)
    ensures
        forall|k: int|
            0 <= k < subtract_each(avail, u).len() ==> !spans_intersect(
                u,
                #[trigger] subtract_each(avail, u)[k],
            ) && within_some(subtract_each(avail, u)[k], avail),
    decreases avail.len(),
{
    if avail.len() > 0 {
        let init = avail.drop_last();
        let res = subtract_each(avail, u);
        let a = subtract_each(init, u);
        let p = pieces(avail.last(), u);
        lemma_subtract_each_sound(init, u);
        lemma_pieces_sound(avail.last(), u);
        assert forall|k: int| 0 <= k < res.len() implies !spans_intersect(u, #[trigger] res[k])
            && within_some(res[k], avail) by {
            if k < a.len() {
                assert(res[k] == a[k]);
                assert(within_some(a[k], init));
                let i = choose|i: int| 0 <= i < init.len() && inside(a[k], #[trigger] init[i]);
                assert(avail[i] == init[i]);
            } else {
                assert(res[k] == p[k - a.len()]);
                assert(avail[avail.len() - 1] == avail.last());
            }
        }
    }
}

/// Free memory never overlaps a used region: no region that `subtract_all`
/// leaves intersects any of the regions taken out.
pub proof fn lemma_free_regions_avoid_used(avail: Seq<RegionSpan>, used: Seq<RegionSpan>)
    ensures
        forall|k: int, j: int|
            0 <= k < subtract_all(avail, used).len() && 0 <= j < used.len() ==> !spans_intersect(
                #[trigger] used[j],
                #[trigger] subtract_all(avail, used)[k],
            ),
        forall|k: int|
            0 <= k < subtract_all(avail, used).len() ==> within_some(
                #[trigger] subtract_all(avail, used)[k],
                avail,
            ),
    decreases used.len(),
{
    if used.len() > 0 {
        let prev_used = used.drop_last();
        let u = used.last();
        let prev = subtract_all(avail, prev_used);
        let res = subtract_all(avail, used);
        lemma_free_regions_avoid_used(avail, prev_used);
        lemma_subtract_each_sound(prev, u);
        assert forall|k: int, j: int|
            0 <= k < res.len() && 0 <= j < used.len() implies !spans_intersect(
            #[trigger] used[j],
            #[trigger] res[k],
        ) by {
            if j == used.len() - 1 {
                assert(used[j] == u);
            } else {
                assert(within_some(res[k], prev));
                let i = choose|i: int| 0 <= i < prev.len() && inside(res[k], #[trigger] prev[i]);
                assert(used[j] == prev_used[j]);
                assert(!spans_intersect(prev_used[j], prev[i]));
            }
        }
        assert forall|k: int| 0 <= k < res.len() implies within_some(#[trigger] res[k], avail) by {
            assert(within_some(res[k], prev));
            let i = choose|i: int| 0 <= i < prev.len() && inside(res[k], #[trigger] prev[i]);
            assert(within_some(prev[i], avail));
            let i2 = choose|i2: int| 0 <= i2 < avail.len() && inside(prev[i], #[trigger] avail[i2]);
            assert(inside(res[k], avail[i2]));
        }
    } else {
        assert forall|k: int| 0 <= k < subtract_all(avail, used).len() implies within_some(
            #[trigger] subtract_all(avail, used)[k],
            avail,
        ) by {
            assert(subtract_all(avail, used)[k] == avail[k]);
            assert(inside(avail[k], avail[k]));
        }
    }
}

/// The free regions hold exactly the addresses that are available and not used.
pub proof fn lemma_free_regions_cover(avail: Seq<RegionSpan>, used: Seq<RegionSpan>, addr: int)
    ensures
        covers(subtract_all(avail, used), addr) <==> (covers(avail, addr) && !covers(used, addr)),
    decreases used.len(),
{
    if used.len() > 0 {
        let prev_used = used.drop_last();
        let u = used.last();
        lemma_free_regions_cover(avail, prev_used, addr);
        lemma_subtract_each_cover(subtract_all(avail, prev_used), u, addr);
        lemma_covers_concat(prev_used, seq![u], addr);
        assert(prev_used + seq![u] == used);
        if covers(seq![u], addr) {
            assert(seq![u][0] == u);
        }
        if u.start <= addr && addr < u.end {
            assert(seq![u][0] == u);
        }
    }
}

/// The largest region; among equally large ones, the last. `None` when there is none.
pub fn largest_region(regions: &BufVec<Region, 128>) -> (r: Option<Region>)
    ensures
        r is None <==> regions@.len() == 0,
        r is Some ==> exists|k: int|
            0 <= k < regions@.len() && #[trigger] regions@[k] == r->0 && (forall|j: int|
                k < j < regions@.len() ==> region_size(#[trigger] regions@[j]@) < region_size(
                    r->0@,
                )),
        r is Some ==> forall|j: int|
            0 <= j < regions@.len() ==> region_size(#[trigger] regions@[j]@) <= region_size(
                r->0@,
            ),
{
    let n = regions.len();
    if n == 0 {
        return None;
    }
    let mut best = regions.index(0);
    let ghost mut best_k: int = 0;
    let mut i: usize = 1;
    while i < n
        invariant
            n == regions@.len(),
            1 <= i <= n,
            0 <= best_k < i,
            regions@[best_k] == best,
            forall|j: int| best_k < j < i ==> region_size(#[trigger] regions@[j]@) < region_size(
                best@,
            ),
            forall|j: int| 0 <= j < i ==> region_size(#[trigger] regions@[j]@) <= region_size(
                best@,
            ),
        decreases n - i,
    {
        let r2 = regions.index(i);
        if best.size() > r2.size() {
        } else {
            best = r2;
            proof {
                best_k = i as int;
            }
        }
        i = i + 1;
    }
    Some(best)
}

} // verus!
